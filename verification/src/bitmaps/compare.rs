//! Equality and order of bitmaps.
//!
//! Two bitmaps are equal when they hold the same indices. Bitmaps are
//! ordered by the highest index at which they differ, see
//! [`precedes`](super::order::precedes).

use super::bitmap::Bitmap;
use super::order::precedes;
use core::cmp::Ordering;
use vstd::prelude::*;
use vstd::std_specs::cmp::{PartialEqSpecImpl, PartialOrdSpecImpl};

verus! {

/// Where the set `a` stands relative to the set `b`.
pub open spec fn set_order(a: Set<int>, b: Set<int>) -> Ordering {
    if a == b {
        Ordering::Equal
    } else if precedes(a, b) {
        Ordering::Less
    } else {
        Ordering::Greater
    }
}

impl Bitmap {
    /// Compares two bitmaps. `Greater` means that `other` comes before
    /// `self`.
    pub fn cmp(&self, other: &Bitmap) -> (r: Ordering)
        ensures
            r == set_order(self@, other@),
            r is Greater <==> precedes(other@, self@),
    {
        let sign = self.as_raw().compare(other.as_raw());
        if sign == 0 {
            Ordering::Equal
        } else if sign == -1 {
            Ordering::Less
        } else {
            Ordering::Greater
        }
    }
}

impl PartialEq for Bitmap {
    fn eq(&self, other: &Bitmap) -> (r: bool) {
        self.as_raw().equals(other.as_raw())
    }
}

impl PartialEqSpecImpl for Bitmap {
    open spec fn obeys_eq_spec() -> bool {
        true
    }

    /// Two bitmaps are equal when they hold the same indices.
    open spec fn eq_spec(&self, other: &Bitmap) -> bool {
        self@ == other@
    }
}

impl Eq for Bitmap {

}

impl PartialOrd for Bitmap {
    fn partial_cmp(&self, other: &Bitmap) -> (r: Option<Ordering>) {
        Some(self.cmp(other))
    }
}

impl PartialOrdSpecImpl for Bitmap {
    open spec fn obeys_partial_cmp_spec() -> bool {
        true
    }

    /// Any two bitmaps can be compared.
    open spec fn partial_cmp_spec(&self, other: &Bitmap) -> Option<Ordering> {
        Some(set_order(self@, other@))
    }
}

} // verus!
