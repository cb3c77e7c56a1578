//! Borrowed views of bitmaps.
//!
//! A [`BitmapRef`] shows a bitmap that is owned elsewhere. It answers every
//! query and takes part in every operator, and it offers none of the methods
//! that change a bitmap.

use super::bitmap::Bitmap;
use super::compare::set_order;
use super::indices::{BitmapIndex, MAX_INDEX};
use super::iter::BitmapIterator;
use super::model::{complement, is_greatest, is_least, naturals, symmetric_difference};
use super::order::precedes;
use super::raw::RawBitmap;
use super::render::list_text;
use super::toggles::SetOp;
use crate::sealed::Sealed;
use core::cmp::Ordering;
use core::marker::PhantomData;
use core::ops::{BitAnd, BitOr, BitXor, Not, Sub};
use vstd::prelude::*;
use vstd::std_specs::cmp::{PartialEqSpecImpl, PartialOrdSpecImpl};
use vstd::std_specs::ops::{
    BitAndSpecImpl, BitOrSpecImpl, BitXorSpecImpl, NotSpecImpl, SubSpecImpl,
};

verus! {

/// Bitmap or a specialized form thereof
///
/// Every implementation wraps one bitmap storage and holds nothing else, so
/// that a view of one implementation can be cast to a view of another.
pub trait BitmapLike: View<V = Set<int>> + Sealed + Sized {
    /// The textual form of a value of this type whose storage has the
    /// toggles `toggles`.
    spec fn text_of(toggles: Seq<u32>) -> Seq<char>;

    /// Access the storage of the bitmap
    fn as_raw(&self) -> (raw: &RawBitmap)
        ensures
            raw@ == self@,
    ;

    /// Wraps a storage in this type.
    fn from_raw(raw: RawBitmap) -> (r: Self)
        ensures
            r@ == raw@,
    ;

    /// Writes the textual form of a value of this type with the given
    /// storage.
    fn render_raw(raw: &RawBitmap) -> (text: String)
        ensures
            text@ == Self::text_of(raw.toggles()),
    ;
}

impl Sealed for Bitmap {

}

impl BitmapLike for Bitmap {
    open spec fn text_of(toggles: Seq<u32>) -> Seq<char> {
        list_text(toggles)
    }

    fn as_raw(&self) -> (raw: &RawBitmap) {
        Bitmap::as_raw(self)
    }

    fn from_raw(raw: RawBitmap) -> (r: Bitmap) {
        Bitmap::from_owned_raw(raw)
    }

    fn render_raw(raw: &RawBitmap) -> (text: String) {
        raw.text()
    }
}

/// Read-only reference to a [`Bitmap`]-like `Target` that is owned elsewhere
///
/// For most intents and purposes, you can think of this as an
/// `&'target Target` and use it as such. A view cannot be cloned: a second
/// view is made by borrowing from the owner again.
pub struct BitmapRef<'target, Target: BitmapLike> {
    raw: &'target RawBitmap,
    marker: PhantomData<&'target Target>,
}

impl<'target, Target: BitmapLike> View for BitmapRef<'target, Target> {
    type V = Set<int>;

    /// The set of indices that the target holds.
    closed spec fn view(&self) -> Set<int> {
        self.raw@
    }
}

impl<'target, Target: BitmapLike> BitmapRef<'target, Target> {
    /// The indices at which membership changes in the target.
    pub closed spec fn toggles(&self) -> Seq<u32> {
        self.raw.toggles()
    }

    /// Borrows a view from a storage that is owned elsewhere.
    pub fn borrow_from_raw(raw: &'target RawBitmap) -> (r: Self)
        ensures
            r@ == raw@,
            r.toggles() == raw.toggles(),
    {
        BitmapRef { raw, marker: PhantomData }
    }

    /// Borrows a view from its target.
    pub fn new(target: &'target Target) -> (r: Self)
        ensures
            r@ == target@,
    {
        BitmapRef { raw: target.as_raw(), marker: PhantomData }
    }

    /// The storage that the view points to.
    pub fn as_raw(&self) -> (raw: &'target RawBitmap)
        ensures
            raw@ == self@,
            raw.toggles() == self.toggles(),
    {
        self.raw
    }

    /// Cast to another bitmap newtype
    pub fn cast<Other: BitmapLike>(self) -> (r: BitmapRef<'target, Other>)
        ensures
            r@ == self@,
            r.toggles() == self.toggles(),
    {
        BitmapRef { raw: self.raw, marker: PhantomData }
    }

    /// A bitmap of the target's type that holds what this view shows.
    pub fn to_owned(&self) -> (r: Target)
        ensures
            r@ == self@,
    {
        Target::from_raw(self.raw.clone())
    }

    /// The target in its textual form.
    pub fn to_string(&self) -> (text: String)
        ensures
            text@ == Target::text_of(self.toggles()),
    {
        Target::render_raw(self.raw)
    }

        /// Check if index `idx` is set
    pub fn is_set(&self, idx: BitmapIndex) -> (r: bool)
        ensures
            r == self@.contains(idx@),
    {
        self.raw.is_set(idx)
    }

    /// Check if all indices are unset
    pub fn is_empty(&self) -> (r: bool)
        ensures
            r == (self@ == Set::<int>::empty()),
    {
        self.raw.is_empty()
    }

    /// Check if all indices are set
    pub fn is_full(&self) -> (r: bool)
        ensures
            r == (self@ == naturals()),
    {
        self.raw.is_full()
    }

    /// Check the first set index, if any
    ///
    /// The result is `None` when no index up to [`MAX_INDEX`] is set.
    pub fn first_set(&self) -> (r: Option<BitmapIndex>)
        ensures
            match r {
                Some(m) => is_least(self@, m@) && m.wf(),
                None => forall|i: int| 0 <= i <= MAX_INDEX ==> !self@.contains(i),
            },
    {
        self.raw.first_set()
    }

    /// Check the last set index, if any
    ///
    /// The result is `None` when the bitmap is empty, and when it is
    /// infinite.
    pub fn last_set(&self) -> (r: Option<BitmapIndex>)
        ensures
            match r {
                Some(m) => is_greatest(self@, m@) && m.wf(),
                None => self@ == Set::<int>::empty() || !self@.finite(),
            },
    {
        self.raw.last_set()
    }

    /// The number of indices that are set in the bitmap.
    ///
    /// None means that an infinite number of indices are set.
    pub fn weight(&self) -> (w: Option<usize>)
        ensures
            match w {
                Some(n) => self@.finite() && self@.len() == n,
                None => !self@.finite(),
            },
    {
        self.raw.weight()
    }

    /// Check the first unset index, if any
    ///
    /// The result is `None` when every index up to [`MAX_INDEX`] is set.
    pub fn first_unset(&self) -> (r: Option<BitmapIndex>)
        ensures
            match r {
                Some(m) => is_least(complement(self@), m@) && m.wf(),
                None => forall|i: int| 0 <= i <= MAX_INDEX ==> self@.contains(i),
            },
    {
        self.raw.first_unset()
    }

    /// Check the last unset index, if any
    ///
    /// The result is `None` when the bitmap is full, and when it is finite.
    pub fn last_unset(&self) -> (r: Option<BitmapIndex>)
        ensures
            match r {
                Some(m) => is_greatest(complement(self@), m@) && m.wf(),
                None => self@ == naturals() || self@.finite(),
            },
    {
        self.raw.last_unset()
    }

    /// Truth that `self` and `rhs` have some set indices in common
    pub fn intersects(&self, rhs: &Target) -> (r: bool)
        ensures
            r == !self@.disjoint(rhs@),
    {
        self.raw.intersects(rhs.as_raw())
    }

    /// Truth that the indices set in `inner` are a subset of those set in `self`.
    ///
    /// The empty bitmap is considered included in any other bitmap.
    pub fn includes(&self, inner: &Target) -> (r: bool)
        ensures
            r == inner@.subset_of(self@),
    {
        self.raw.includes(inner.as_raw())
    }

    /// Iterate over set indices
    pub fn iter_set(&self) -> (r: BitmapIterator<BitmapRef<'target, Bitmap>>)
        ensures
            r.target() == self@,
            r.produces_set(),
            r.position() == 0,
    {
        BitmapIterator::new(BitmapRef::borrow_from_raw(self.raw), true)
    }

    /// Iterate over unset indices
    pub fn iter_unset(&self) -> (r: BitmapIterator<BitmapRef<'target, Bitmap>>)
        ensures
            r.target() == self@,
            !r.produces_set(),
            r.position() == 0,
    {
        BitmapIterator::new(BitmapRef::borrow_from_raw(self.raw), false)
    }

    /// Iterate over set indices, consuming the view
    pub fn into_iter(self) -> (r: BitmapIterator<BitmapRef<'target, Bitmap>>)
        ensures
            r.target() == self@,
            r.produces_set(),
            r.position() == 0,
    {
        BitmapIterator::new(self.cast(), true)
    }

    /// Compares the targets of two views. `Greater` means that `other`
    /// comes before `self`.
    pub fn cmp(&self, other: &BitmapRef<'_, Target>) -> (r: Ordering)
        ensures
            r == set_order(self@, other@),
            r is Greater <==> precedes(other@, self@),
    {
        let sign = self.raw.compare(other.raw);
        if sign == 0 {
            Ordering::Equal
        } else if sign == -1 {
            Ordering::Less
        } else {
            Ordering::Greater
        }
    }
}

impl Bitmap {
    /// Borrows a view from a storage that is owned elsewhere.
    pub fn borrow_from_raw<'target>(raw: &'target RawBitmap) -> (r: BitmapRef<'target, Bitmap>)
        ensures
            r@ == raw@,
            r.toggles() == raw.toggles(),
    {
        BitmapRef::borrow_from_raw(raw)
    }

    /// Borrows a view of this bitmap.
    pub fn as_ref(&self) -> (r: BitmapRef<'_, Bitmap>)
        ensures
            r@ == self@,
    {
        BitmapRef::new(self)
    }
}

impl<'target, Target: BitmapLike> PartialEq for BitmapRef<'target, Target> {
    fn eq(&self, other: &BitmapRef<'target, Target>) -> (r: bool) {
        self.raw.equals(other.raw)
    }
}

impl<'target, Target: BitmapLike> PartialEqSpecImpl for BitmapRef<'target, Target> {
    open spec fn obeys_eq_spec() -> bool {
        true
    }

    /// Two views are equal when their targets hold the same indices.
    open spec fn eq_spec(&self, other: &BitmapRef<'target, Target>) -> bool {
        self@ == other@
    }
}

impl<'target, Target: BitmapLike> PartialOrd for BitmapRef<'target, Target> {
    fn partial_cmp(&self, other: &BitmapRef<'target, Target>) -> (r: Option<Ordering>) {
        Some(self.cmp(other))
    }
}

impl<'target, Target: BitmapLike> PartialOrdSpecImpl for BitmapRef<'target, Target> {
    open spec fn obeys_partial_cmp_spec() -> bool {
        true
    }

    /// Any two views can be compared.
    open spec fn partial_cmp_spec(&self, other: &BitmapRef<'target, Target>) -> Option<Ordering> {
        Some(set_order(self@, other@))
    }
}

impl<'target, Target: BitmapLike> BitAnd<&Target> for &BitmapRef<'target, Target> {
    type Output = Target;

    /// The indices that are set in both bitmaps.
    fn bitand(self, rhs: &Target) -> (r: Target)
        ensures
            r@ == self@.intersect(rhs@),
    {
        let raw = self.raw.combined(rhs.as_raw(), SetOp::And);
        assert(raw@ =~= self@.intersect(rhs@));
        Target::from_raw(raw)
    }
}

impl<'target, Target: BitmapLike> BitAndSpecImpl<&Target> for &BitmapRef<'target, Target> {
    /// The result is a new bitmap, which no specification can name as a
    /// value: what it holds is stated on `bitand` itself.
    open spec fn obeys_bitand_spec() -> bool {
        false
    }

    open spec fn bitand_req(self, rhs: &Target) -> bool {
        true
    }

    open spec fn bitand_spec(self, rhs: &Target) -> Target {
        arbitrary()
    }
}

impl<'target, Target: BitmapLike> BitAnd<&Target> for BitmapRef<'target, Target> {
    type Output = Target;

    /// The indices that are set in both bitmaps.
    fn bitand(self, rhs: &Target) -> (r: Target)
        ensures
            r@ == self@.intersect(rhs@),
    {
        let raw = self.raw.combined(rhs.as_raw(), SetOp::And);
        assert(raw@ =~= self@.intersect(rhs@));
        Target::from_raw(raw)
    }
}

impl<'target, Target: BitmapLike> BitAndSpecImpl<&Target> for BitmapRef<'target, Target> {
    /// The result is a new bitmap, which no specification can name as a
    /// value: what it holds is stated on `bitand` itself.
    open spec fn obeys_bitand_spec() -> bool {
        false
    }

    open spec fn bitand_req(self, rhs: &Target) -> bool {
        true
    }

    open spec fn bitand_spec(self, rhs: &Target) -> Target {
        arbitrary()
    }
}

impl<'target, Target: BitmapLike> BitOr<&Target> for &BitmapRef<'target, Target> {
    type Output = Target;

    /// The indices that are set in either bitmap.
    fn bitor(self, rhs: &Target) -> (r: Target)
        ensures
            r@ == self@.union(rhs@),
    {
        let raw = self.raw.combined(rhs.as_raw(), SetOp::Or);
        assert(raw@ =~= self@.union(rhs@));
        Target::from_raw(raw)
    }
}

impl<'target, Target: BitmapLike> BitOrSpecImpl<&Target> for &BitmapRef<'target, Target> {
    /// The result is a new bitmap, which no specification can name as a
    /// value: what it holds is stated on `bitor` itself.
    open spec fn obeys_bitor_spec() -> bool {
        false
    }

    open spec fn bitor_req(self, rhs: &Target) -> bool {
        true
    }

    open spec fn bitor_spec(self, rhs: &Target) -> Target {
        arbitrary()
    }
}

impl<'target, Target: BitmapLike> BitOr<&Target> for BitmapRef<'target, Target> {
    type Output = Target;

    /// The indices that are set in either bitmap.
    fn bitor(self, rhs: &Target) -> (r: Target)
        ensures
            r@ == self@.union(rhs@),
    {
        let raw = self.raw.combined(rhs.as_raw(), SetOp::Or);
        assert(raw@ =~= self@.union(rhs@));
        Target::from_raw(raw)
    }
}

impl<'target, Target: BitmapLike> BitOrSpecImpl<&Target> for BitmapRef<'target, Target> {
    /// The result is a new bitmap, which no specification can name as a
    /// value: what it holds is stated on `bitor` itself.
    open spec fn obeys_bitor_spec() -> bool {
        false
    }

    open spec fn bitor_req(self, rhs: &Target) -> bool {
        true
    }

    open spec fn bitor_spec(self, rhs: &Target) -> Target {
        arbitrary()
    }
}

impl<'target, Target: BitmapLike> BitXor<&Target> for &BitmapRef<'target, Target> {
    type Output = Target;

    /// The indices that are set in exactly one of the bitmaps.
    fn bitxor(self, rhs: &Target) -> (r: Target)
        ensures
            r@ == symmetric_difference(self@, rhs@),
    {
        let raw = self.raw.combined(rhs.as_raw(), SetOp::Xor);
        assert(raw@ =~= symmetric_difference(self@, rhs@));
        Target::from_raw(raw)
    }
}

impl<'target, Target: BitmapLike> BitXorSpecImpl<&Target> for &BitmapRef<'target, Target> {
    /// The result is a new bitmap, which no specification can name as a
    /// value: what it holds is stated on `bitxor` itself.
    open spec fn obeys_bitxor_spec() -> bool {
        false
    }

    open spec fn bitxor_req(self, rhs: &Target) -> bool {
        true
    }

    open spec fn bitxor_spec(self, rhs: &Target) -> Target {
        arbitrary()
    }
}

impl<'target, Target: BitmapLike> BitXor<&Target> for BitmapRef<'target, Target> {
    type Output = Target;

    /// The indices that are set in exactly one of the bitmaps.
    fn bitxor(self, rhs: &Target) -> (r: Target)
        ensures
            r@ == symmetric_difference(self@, rhs@),
    {
        let raw = self.raw.combined(rhs.as_raw(), SetOp::Xor);
        assert(raw@ =~= symmetric_difference(self@, rhs@));
        Target::from_raw(raw)
    }
}

impl<'target, Target: BitmapLike> BitXorSpecImpl<&Target> for BitmapRef<'target, Target> {
    /// The result is a new bitmap, which no specification can name as a
    /// value: what it holds is stated on `bitxor` itself.
    open spec fn obeys_bitxor_spec() -> bool {
        false
    }

    open spec fn bitxor_req(self, rhs: &Target) -> bool {
        true
    }

    open spec fn bitxor_spec(self, rhs: &Target) -> Target {
        arbitrary()
    }
}

impl<'target, Target: BitmapLike> Sub<&Target> for &BitmapRef<'target, Target> {
    type Output = Target;

    /// The indices that are set in `self` and not in `rhs`.
    fn sub(self, rhs: &Target) -> (r: Target)
        ensures
            r@ == self@.difference(rhs@),
    {
        let raw = self.raw.combined(rhs.as_raw(), SetOp::AndNot);
        assert(raw@ =~= self@.difference(rhs@));
        Target::from_raw(raw)
    }
}

impl<'target, Target: BitmapLike> SubSpecImpl<&Target> for &BitmapRef<'target, Target> {
    /// The result is a new bitmap, which no specification can name as a
    /// value: what it holds is stated on `sub` itself.
    open spec fn obeys_sub_spec() -> bool {
        false
    }

    open spec fn sub_req(self, rhs: &Target) -> bool {
        true
    }

    open spec fn sub_spec(self, rhs: &Target) -> Target {
        arbitrary()
    }
}

impl<'target, Target: BitmapLike> Sub<&Target> for BitmapRef<'target, Target> {
    type Output = Target;

    /// The indices that are set in `self` and not in `rhs`.
    fn sub(self, rhs: &Target) -> (r: Target)
        ensures
            r@ == self@.difference(rhs@),
    {
        let raw = self.raw.combined(rhs.as_raw(), SetOp::AndNot);
        assert(raw@ =~= self@.difference(rhs@));
        Target::from_raw(raw)
    }
}

impl<'target, Target: BitmapLike> SubSpecImpl<&Target> for BitmapRef<'target, Target> {
    /// The result is a new bitmap, which no specification can name as a
    /// value: what it holds is stated on `sub` itself.
    open spec fn obeys_sub_spec() -> bool {
        false
    }

    open spec fn sub_req(self, rhs: &Target) -> bool {
        true
    }

    open spec fn sub_spec(self, rhs: &Target) -> Target {
        arbitrary()
    }
}

impl<'target, Target: BitmapLike> Not for &BitmapRef<'target, Target> {
    type Output = Target;

    /// The indices that are not set in `self`.
    fn not(self) -> (r: Target)
        ensures
            r@ == complement(self@),
    {
        Target::from_raw(self.raw.complemented())
    }
}

impl<'target, Target: BitmapLike> NotSpecImpl for &BitmapRef<'target, Target> {
    /// The result is a new bitmap, which no specification can name as a
    /// value: what it holds is stated on `not` itself.
    open spec fn obeys_not_spec() -> bool {
        false
    }

    open spec fn not_req(self) -> bool {
        true
    }

    open spec fn not_spec(self) -> Target {
        arbitrary()
    }
}

impl<'target, Target: BitmapLike> Not for BitmapRef<'target, Target> {
    type Output = Target;

    /// The indices that are not set in `self`.
    fn not(self) -> (r: Target)
        ensures
            r@ == complement(self@),
    {
        Target::from_raw(self.raw.complemented())
    }
}

impl<'target, Target: BitmapLike> NotSpecImpl for BitmapRef<'target, Target> {
    /// The result is a new bitmap, which no specification can name as a
    /// value: what it holds is stated on `not` itself.
    open spec fn obeys_not_spec() -> bool {
        false
    }

    open spec fn not_req(self) -> bool {
        true
    }

    open spec fn not_spec(self) -> Target {
        arbitrary()
    }
}

} // verus!
