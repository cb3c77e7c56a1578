//! Ranges of indices.
//!
//! A range names its two ends, each of which may be included, excluded or
//! absent. Before the engine sets or clears a range it brings it into one
//! form: a first index, and a last index unless the range is unbounded.

use super::indices::{BitmapIndex, MAX_INDEX};
use vstd::prelude::*;

verus! {

/// One end of a range of indices
#[derive(Clone, Copy, Debug, PartialEq, Eq, Structural)]
pub enum Bound {
    /// The range reaches this index, and holds it
    Included(BitmapIndex),
    /// The range reaches this index, and does not hold it
    Excluded(BitmapIndex),
    /// The range has no end on this side
    Unbounded,
}

/// A range of indices, given by its two ends
#[derive(Clone, Copy, Debug, PartialEq, Eq, Structural)]
pub struct IndexRange {
    /// Where the range starts
    pub start: Bound,
    /// Where the range ends
    pub end: Bound,
}

/// A range in the form that the engine works on: the indices from `begin` to
/// `end`, both included, or from `begin` upward when `end` is absent
#[derive(Clone, Copy, Debug, PartialEq, Eq, Structural)]
pub struct RawRange {
    /// First index of the range
    pub begin: u32,
    /// Last index of the range, if it has one
    pub end: Option<u32>,
}

impl RawRange {
    /// The integers that the range covers.
    pub open spec fn view(self) -> Set<int> {
        Set::new(|i: int| self.begin <= i && (self.end matches Some(e) ==> i <= e))
    }

    /// The form in which every range without indices is handed on: from 1 to
    /// 0.
    pub open spec fn nothing() -> RawRange {
        RawRange { begin: 1, end: Some(0) }
    }
}

impl IndexRange {
    /// Does the range hold the integer `i`, going by its start alone?
    pub open spec fn starts_by(self, i: int) -> bool {
        match self.start {
            Bound::Included(s) => s@ <= i,
            Bound::Excluded(s) => s@ < i,
            Bound::Unbounded => 0 <= i,
        }
    }

    /// Does the range hold the integer `i`, going by its end alone?
    pub open spec fn ends_after(self, i: int) -> bool {
        match self.end {
            Bound::Included(e) => i <= e@,
            Bound::Excluded(e) => i < e@,
            Bound::Unbounded => true,
        }
    }

    /// The integers that the range covers. A range without an end covers
    /// every integer from its start upward; a range whose ends cannot
    /// both be written as included ends covers nothing.
    pub open spec fn view(self) -> Set<int> {
        if self.is_closable() {
            Set::new(|i: int| self.starts_by(i) && self.ends_after(i))
        } else {
            Set::empty()
        }
    }

    /// Can both ends be written as included ends? They cannot when the range
    /// starts after the largest index or ends before zero; such a range
    /// covers nothing.
    pub open spec fn is_closable(self) -> bool {
        &&& self.start matches Bound::Excluded(s) ==> s@ < MAX_INDEX
        &&& self.end matches Bound::Excluded(e) ==> e@ > 0
    }

    /// The first index of the range, when [`IndexRange::is_closable`] holds.
    pub open spec fn first(self) -> int {
        match self.start {
            Bound::Included(s) => s@,
            Bound::Excluded(s) => s@ + 1,
            Bound::Unbounded => 0,
        }
    }

    /// The last index of the range, when it has an end and
    /// [`IndexRange::is_closable`] holds.
    pub open spec fn last(self) -> Option<int> {
        match self.end {
            Bound::Included(e) => Some(e@),
            Bound::Excluded(e) => Some(e@ - 1),
            Bound::Unbounded => None,
        }
    }

    /// A range with the given ends.
    pub fn new(start: Bound, end: Bound) -> (r: IndexRange)
        ensures
            r == (IndexRange { start, end }),
    {
        IndexRange { start, end }
    }

    /// The range of the indices from `first` to `last`, both included.
    pub fn inclusive(first: BitmapIndex, last: BitmapIndex) -> (r: IndexRange)
        ensures
            r == (IndexRange { start: Bound::Included(first), end: Bound::Included(last) }),
    {
        IndexRange { start: Bound::Included(first), end: Bound::Included(last) }
    }

    /// The range of the indices from `first` up to `end`, which is left out.
    pub fn half_open(first: BitmapIndex, end: BitmapIndex) -> (r: IndexRange)
        ensures
            r == (IndexRange { start: Bound::Included(first), end: Bound::Excluded(end) }),
    {
        IndexRange { start: Bound::Included(first), end: Bound::Excluded(end) }
    }

    /// The range of every index from `first` upward.
    pub fn from(first: BitmapIndex) -> (r: IndexRange)
        ensures
            r == (IndexRange { start: Bound::Included(first), end: Bound::Unbounded }),
    {
        IndexRange { start: Bound::Included(first), end: Bound::Unbounded }
    }

    /// The range of every index below `end`.
    pub fn to(end: BitmapIndex) -> (r: IndexRange)
        ensures
            r == (IndexRange { start: Bound::Unbounded, end: Bound::Excluded(end) }),
    {
        IndexRange { start: Bound::Unbounded, end: Bound::Excluded(end) }
    }

    /// The range of every index up to `last`, which is included.
    pub fn to_inclusive(last: BitmapIndex) -> (r: IndexRange)
        ensures
            r == (IndexRange { start: Bound::Unbounded, end: Bound::Included(last) }),
    {
        IndexRange { start: Bound::Unbounded, end: Bound::Included(last) }
    }

    /// The range of every index.
    pub fn full() -> (r: IndexRange)
        ensures
            r == (IndexRange { start: Bound::Unbounded, end: Bound::Unbounded }),
    {
        IndexRange { start: Bound::Unbounded, end: Bound::Unbounded }
    }

    /// Has the range no end on either side? Such a range covers every index.
    pub fn is_unbounded(&self) -> (r: bool)
        ensures
            r == (self.start is Unbounded && self.end is Unbounded),
    {
        match (self.start, self.end) {
            (Bound::Unbounded, Bound::Unbounded) => true,
            _ => false,
        }
    }

    /// Brings the range into the engine's form. An excluded start moves
    /// up by one and an excluded end moves down by one; where that step
    /// leaves the range of indices, the range covers nothing and
    /// [`RawRange::nothing`] is returned.
    pub fn to_raw(&self) -> (raw: RawRange)
        ensures
            raw@ == self@,
            raw.begin <= MAX_INDEX,
            raw.end matches Some(e) ==> e <= MAX_INDEX,
            self.is_closable() ==> raw.begin == self.first() && match raw.end {
                Some(e) => self.last() == Some(e as int),
                None => self.last() is None,
            },
            !self.is_closable() ==> raw == RawRange::nothing(),
    {
        let raw = match self.literal() {
            Some(raw) => raw,
            None => RawRange { begin: 1, end: Some(0) },
        };
        proof {
            assert(raw@ =~= self@);
        }
        raw
    }

    /// Writes both ends as included ends, if that can be done.
    fn literal(&self) -> (r: Option<RawRange>)
        ensures
            r is Some <==> self.is_closable(),
            r matches Some(raw) ==> {
                &&& raw.begin == self.first()
                &&& raw.begin <= MAX_INDEX
                &&& match raw.end {
                    Some(e) => e <= MAX_INDEX && self.last() == Some(e as int),
                    None => self.last() is None,
                }
            },
    {
        let begin = match self.start {
            Bound::Unbounded => BitmapIndex::min_value(),
            Bound::Included(i) => i,
            Bound::Excluded(i) => match i.checked_succ() {
                Some(next) => next,
                None => {
                    return None;
                },
            },
        };
        let end = match self.end {
            Bound::Unbounded => None,
            Bound::Included(i) => Some(i.into_c_uint()),
            Bound::Excluded(i) => match i.checked_pred() {
                Some(prev) => Some(prev.into_c_uint()),
                None => {
                    return None;
                },
            },
        };
        Some(RawRange { begin: begin.into_c_uint(), end })
    }
}

} // verus!
