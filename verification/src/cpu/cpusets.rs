//! Sets of processing units.

use crate::bitmaps::bitmap::{index_values, Bitmap};
use crate::bitmaps::compare::set_order;
use crate::bitmaps::indices::{BitmapIndex, MAX_INDEX};
use crate::bitmaps::iter::BitmapIterator;
use crate::bitmaps::model::{complement, is_greatest, is_least, naturals, symmetric_difference};
use crate::bitmaps::order::precedes;
use crate::bitmaps::ranges::IndexRange;
use crate::bitmaps::raw::RawBitmap;
use crate::bitmaps::refs::{BitmapLike, BitmapRef};
use crate::bitmaps::render::list_text;
use crate::bitmaps::special::{BitmapKind, SpecializedBitmap};
use crate::bitmaps::toggles::SetOp;
use crate::sealed::Sealed;
use core::cmp::Ordering;
use core::ops::{
    BitAnd, BitAndAssign, BitOr, BitOrAssign, BitXor, BitXorAssign, Not, Sub, SubAssign,
};
use vstd::prelude::*;
use vstd::std_specs::cmp::{PartialEqSpecImpl, PartialOrdSpecImpl};
use vstd::std_specs::convert::FromSpecImpl;
use vstd::std_specs::ops::{
    BitAndSpecImpl, BitOrSpecImpl, BitXorSpecImpl, NotSpecImpl, SubSpecImpl,
};
use vstd::string::*;

verus! {

/// A bitmap of processing units
///
/// A `CpuSet` is a [`Bitmap`] whose indices are
/// the operating system numbers of processing units. It has every operation of a bitmap,
/// and its operators only take another `CpuSet`.
#[derive(Debug)]
pub struct CpuSet(Bitmap);

impl View for CpuSet {
    type V = Set<int>;

    /// The set of indices that the bitmap holds.
    closed spec fn view(&self) -> Set<int> {
        self.0@
    }
}

/// The textual form of a `CpuSet` whose storage has the toggles `toggles`:
/// the name of the type, and the list of runs in round brackets.
pub open spec fn cpuset_text(toggles: Seq<u32>) -> Seq<char> {
    "CpuSet("@ + list_text(toggles) + ")"@
}

impl CpuSet {
    /// The indices at which membership changes, in ascending order.
    pub closed spec fn toggles(&self) -> Seq<u32> {
        self.0.toggles()
    }

    /// The plain bitmap inside, in specifications.
    pub closed spec fn inner(&self) -> Bitmap {
        self.0
    }

    // === Constructors ===

    /// Create an empty bitmap
    pub fn new() -> (r: CpuSet)
        ensures
            r@ == Set::<int>::empty(),
    {
        CpuSet(Bitmap::new())
    }

    /// Create a full bitmap
    pub fn full() -> (r: CpuSet)
        ensures
            r@ == naturals(),
    {
        CpuSet(Bitmap::full())
    }

    /// Creates a new bitmap with the given range of indices set
    pub fn from_range(range: IndexRange) -> (r: CpuSet)
        ensures
            r@ == range@,
    {
        CpuSet(Bitmap::from_range(range))
    }

    /// Creates a new bitmap with the given indices set
    pub fn from_indices(indices: &[BitmapIndex]) -> (r: CpuSet)
        ensures
            r@ == index_values(indices@),
            r@.finite(),
            indices@.no_duplicates() ==> r@.len() == indices.len(),
    {
        CpuSet(Bitmap::from_indices(indices))
    }

    // === Getters and setters ===

    /// Turn this bitmap into a copy of another bitmap
    pub fn copy_from(&mut self, other: &CpuSet)
        ensures
            final(self)@ == other@,
            final(self).toggles() == other.toggles(),
    {
        self.0.copy_from(&other.0)
    }

    /// Clear all indices
    pub fn clear(&mut self)
        ensures
            final(self)@ == Set::<int>::empty(),
    {
        self.0.clear()
    }

    /// Set all indices
    pub fn fill(&mut self)
        ensures
            final(self)@ == naturals(),
    {
        self.0.fill()
    }

    /// Clear all indices except for `idx`, which is set
    pub fn set_only(&mut self, idx: BitmapIndex)
        ensures
            final(self)@ == set![idx@],
    {
        self.0.set_only(idx)
    }

    /// Set all indices except for `idx`, which is cleared
    pub fn set_all_but(&mut self, idx: BitmapIndex)
        ensures
            final(self)@ == naturals().remove(idx@),
    {
        self.0.set_all_but(idx)
    }

    /// Set index `idx`
    pub fn set(&mut self, idx: BitmapIndex)
        ensures
            final(self)@ == old(self)@.insert(idx@),
    {
        self.0.set(idx)
    }

    /// Set indices covered by `range`
    pub fn set_range(&mut self, range: IndexRange)
        ensures
            final(self)@ == old(self)@.union(range@),
    {
        self.0.set_range(range)
    }

    /// Clear index `idx`
    pub fn unset(&mut self, idx: BitmapIndex)
        ensures
            final(self)@ == old(self)@.remove(idx@),
    {
        self.0.unset(idx)
    }

    /// Clear indices covered by `range`
    pub fn unset_range(&mut self, range: IndexRange)
        ensures
            final(self)@ == old(self)@.difference(range@),
    {
        self.0.unset_range(range)
    }

    /// Keep a single index among those set in the bitmap
    ///
    /// The index that is kept is the lowest index that was set. A bitmap in
    /// which no index up to [`MAX_INDEX`] is set is left unchanged.
    pub fn singlify(&mut self)
        ensures
            forall|m: int|
                m <= MAX_INDEX && is_least(old(self)@, m) ==> final(self)@ == set![m],
            (forall|i: int| 0 <= i <= MAX_INDEX ==> !old(self)@.contains(i)) ==> final(self)@
                == old(self)@,
            final(self)@.subset_of(old(self)@),
            (exists|i: int| 0 <= i <= MAX_INDEX && old(self)@.contains(i)) ==> {
                &&& final(self)@.finite()
                &&& final(self)@.len() == 1
            },
    {
        self.0.singlify()
    }

    /// Inverts the current bitmap
    pub fn invert(&mut self)
        ensures
            final(self)@ == complement(old(self)@),
    {
        self.0.invert()
    }

    /// Set every index of `indices`
    pub fn extend(&mut self, indices: &[BitmapIndex])
        ensures
            final(self)@ == old(self)@.union(index_values(indices@)),
    {
        self.0.extend(indices)
    }

    /// Check if index `idx` is set
    pub fn is_set(&self, idx: BitmapIndex) -> (r: bool)
        ensures
            r == self@.contains(idx@),
    {
        self.0.is_set(idx)
    }

    /// Check if all indices are unset
    pub fn is_empty(&self) -> (r: bool)
        ensures
            r == (self@ == Set::<int>::empty()),
    {
        self.0.is_empty()
    }

    /// Check if all indices are set
    pub fn is_full(&self) -> (r: bool)
        ensures
            r == (self@ == naturals()),
    {
        self.0.is_full()
    }

    /// Check the first set index, if any
    ///
    /// The result is `None` when no index up to [`MAX_INDEX`] is set.
    pub fn first_set(&self) -> (r: Option<BitmapIndex>)
        ensures
            match r {
                Some(m) => is_least(self@, m@) && m.wf(),
                None => forall|i: int| 0 <= i <= MAX_INDEX ==> !self@.contains(i),
            },
    {
        self.0.first_set()
    }

    /// Check the last set index, if any
    ///
    /// The result is `None` when the bitmap is empty, and when it is
    /// infinite.
    pub fn last_set(&self) -> (r: Option<BitmapIndex>)
        ensures
            match r {
                Some(m) => is_greatest(self@, m@) && m.wf(),
                None => self@ == Set::<int>::empty() || !self@.finite(),
            },
    {
        self.0.last_set()
    }

    /// The number of indices that are set in the bitmap.
    ///
    /// None means that an infinite number of indices are set.
    pub fn weight(&self) -> (w: Option<usize>)
        ensures
            match w {
                Some(n) => self@.finite() && self@.len() == n,
                None => !self@.finite(),
            },
    {
        self.0.weight()
    }

    /// Check the first unset index, if any
    ///
    /// The result is `None` when every index up to [`MAX_INDEX`] is set.
    pub fn first_unset(&self) -> (r: Option<BitmapIndex>)
        ensures
            match r {
                Some(m) => is_least(complement(self@), m@) && m.wf(),
                None => forall|i: int| 0 <= i <= MAX_INDEX ==> self@.contains(i),
            },
    {
        self.0.first_unset()
    }

    /// Check the last unset index, if any
    ///
    /// The result is `None` when the bitmap is full, and when it is finite.
    pub fn last_unset(&self) -> (r: Option<BitmapIndex>)
        ensures
            match r {
                Some(m) => is_greatest(complement(self@), m@) && m.wf(),
                None => self@ == naturals() || self@.finite(),
            },
    {
        self.0.last_unset()
    }

    /// Truth that `self` and `rhs` have some set indices in common
    pub fn intersects(&self, rhs: &CpuSet) -> (r: bool)
        ensures
            r == !self@.disjoint(rhs@),
    {
        self.0.intersects(&rhs.0)
    }

    /// Truth that the indices set in `inner` are a subset of those set in `self`.
    ///
    /// The empty bitmap is considered included in any other bitmap.
    pub fn includes(&self, inner: &CpuSet) -> (r: bool)
        ensures
            r == inner@.subset_of(self@),
    {
        self.0.includes(&inner.0)
    }

    /// Iterate over set indices
    pub fn iter_set(&self) -> (r: BitmapIterator<&Bitmap>)
        ensures
            r.target() == self@,
            r.produces_set(),
            r.position() == 0,
    {
        self.0.iter_set()
    }

    /// Iterate over unset indices
    pub fn iter_unset(&self) -> (r: BitmapIterator<&Bitmap>)
        ensures
            r.target() == self@,
            !r.produces_set(),
            r.position() == 0,
    {
        self.0.iter_unset()
    }

    /// Iterate over set indices, consuming the bitmap
    pub fn into_iter(self) -> (r: BitmapIterator<Bitmap>)
        ensures
            r.target() == self@,
            r.produces_set(),
            r.position() == 0,
    {
        self.0.into_iter()
    }

    /// Borrows a view of this bitmap.
    pub fn as_ref(&self) -> (r: BitmapRef<'_, CpuSet>)
        ensures
            r@ == self@,
            r.toggles() == self.toggles(),
    {
        BitmapRef::borrow_from_raw(self.0.as_raw())
    }

    /// Compares two bitmaps. `Greater` means that `other` comes before
    /// `self`.
    pub fn cmp(&self, other: &CpuSet) -> (r: Ordering)
        ensures
            r == set_order(self@, other@),
            r is Greater <==> precedes(other@, self@),
    {
        self.0.cmp(&other.0)
    }

    /// The bitmap in its textual form: the name of the type, and the list
    /// of its runs in round brackets
    pub fn to_string(&self) -> (text: String)
        ensures
            text@ == cpuset_text(self.toggles()),
    {
        CpuSet::render_raw(self.0.as_raw())
    }
}

impl Sealed for CpuSet {

}

impl BitmapLike for CpuSet {
    open spec fn text_of(toggles: Seq<u32>) -> Seq<char> {
        cpuset_text(toggles)
    }

    fn as_raw(&self) -> (raw: &RawBitmap) {
        self.0.as_raw()
    }

    fn from_raw(raw: RawBitmap) -> (r: CpuSet) {
        CpuSet(Bitmap::from_owned_raw(raw))
    }

    fn render_raw(raw: &RawBitmap) -> (text: String) {
        let list = raw.text();
        let mut text = String::from_str("CpuSet(");
        text.append(list.as_str());
        text.append(")");
        text
    }
}

impl SpecializedBitmap for CpuSet {
    const BITMAP_KIND: BitmapKind = BitmapKind::CpuSet;

    open spec fn kind_of() -> BitmapKind {
        BitmapKind::CpuSet
    }

    fn kind() -> (kind: BitmapKind) {
        BitmapKind::CpuSet
    }

    fn as_bitmap(&self) -> (bitmap: &Bitmap) {
        &self.0
    }

    fn as_bitmap_mut(&mut self) -> (bitmap: &mut Bitmap) {
        &mut self.0
    }

    fn from_bitmap(bitmap: Bitmap) -> (r: CpuSet) {
        CpuSet(bitmap)
    }

    fn into_bitmap(self) -> (bitmap: Bitmap) {
        self.0
    }
}

impl Clone for CpuSet {
    fn clone(&self) -> (r: CpuSet)
        ensures
            r@ == self@,
            r.toggles() == self.toggles(),
    {
        CpuSet(self.0.clone())
    }
}

impl Default for CpuSet {
    fn default() -> (r: CpuSet)
        ensures
            r@ == Set::<int>::empty(),
    {
        CpuSet::new()
    }
}

impl From<Bitmap> for CpuSet {
    /// Gives a plain bitmap this kind. Nothing is lost.
    fn from(bitmap: Bitmap) -> (r: CpuSet)
        ensures
            r@ == bitmap@,
            r.toggles() == bitmap.toggles(),
    {
        CpuSet(bitmap)
    }
}

impl FromSpecImpl<Bitmap> for CpuSet {
    open spec fn obeys_from_spec() -> bool {
        true
    }

    closed spec fn from_spec(bitmap: Bitmap) -> CpuSet {
        CpuSet(bitmap)
    }
}

impl From<BitmapIndex> for CpuSet {
    /// The bitmap that holds `idx` alone.
    fn from(idx: BitmapIndex) -> (r: CpuSet)
        ensures
            r@ == set![idx@],
    {
        CpuSet(Bitmap::from(idx))
    }
}

impl FromSpecImpl<BitmapIndex> for CpuSet {
    /// The result is a new bitmap, which no specification can name as a
    /// value: what it holds is stated on `from` itself.
    open spec fn obeys_from_spec() -> bool {
        false
    }

    open spec fn from_spec(idx: BitmapIndex) -> CpuSet {
        arbitrary()
    }
}

impl From<CpuSet> for Bitmap {
    /// Takes the kind off. Nothing is lost.
    fn from(set: CpuSet) -> (r: Bitmap)
        ensures
            r@ == set@,
            r.toggles() == set.toggles(),
    {
        set.0
    }
}

impl FromSpecImpl<CpuSet> for Bitmap {
    open spec fn obeys_from_spec() -> bool {
        true
    }

    open spec fn from_spec(set: CpuSet) -> Bitmap {
        set.inner()
    }
}

impl PartialEq for CpuSet {
    fn eq(&self, other: &CpuSet) -> (r: bool) {
        self.0.eq(&other.0)
    }
}

impl PartialEqSpecImpl for CpuSet {
    open spec fn obeys_eq_spec() -> bool {
        true
    }

    /// Two bitmaps are equal when they hold the same indices.
    open spec fn eq_spec(&self, other: &CpuSet) -> bool {
        self@ == other@
    }
}

impl Eq for CpuSet {

}

impl PartialOrd for CpuSet {
    fn partial_cmp(&self, other: &CpuSet) -> (r: Option<Ordering>) {
        Some(self.0.cmp(&other.0))
    }
}

impl PartialOrdSpecImpl for CpuSet {
    open spec fn obeys_partial_cmp_spec() -> bool {
        true
    }

    /// Any two bitmaps can be compared.
    open spec fn partial_cmp_spec(&self, other: &CpuSet) -> Option<Ordering> {
        Some(set_order(self@, other@))
    }
}

impl BitAnd<&CpuSet> for &CpuSet {
    type Output = CpuSet;

    /// The indices that are set in both bitmaps.
    fn bitand(self, rhs: &CpuSet) -> (r: CpuSet)
        ensures
            r@ == self@.intersect(rhs@),
    {
        let r = CpuSet(self.0.combined(&rhs.0, SetOp::And));
        assert(r@ =~= self@.intersect(rhs@));
        r
    }
}

impl BitAndSpecImpl<&CpuSet> for &CpuSet {
    /// The result is a new bitmap, which no specification can name as a
    /// value: what it holds is stated on `bitand` itself.
    open spec fn obeys_bitand_spec() -> bool {
        false
    }

    open spec fn bitand_req(self, rhs: &CpuSet) -> bool {
        true
    }

    open spec fn bitand_spec(self, rhs: &CpuSet) -> CpuSet {
        arbitrary()
    }
}

impl BitAnd<&CpuSet> for CpuSet {
    type Output = CpuSet;

    /// The indices that are set in both bitmaps.
    fn bitand(self, rhs: &CpuSet) -> (r: CpuSet)
        ensures
            r@ == self@.intersect(rhs@),
    {
        let r = CpuSet(self.0.combined(&rhs.0, SetOp::And));
        assert(r@ =~= self@.intersect(rhs@));
        r
    }
}

impl BitAndSpecImpl<&CpuSet> for CpuSet {
    /// The result is a new bitmap, which no specification can name as a
    /// value: what it holds is stated on `bitand` itself.
    open spec fn obeys_bitand_spec() -> bool {
        false
    }

    open spec fn bitand_req(self, rhs: &CpuSet) -> bool {
        true
    }

    open spec fn bitand_spec(self, rhs: &CpuSet) -> CpuSet {
        arbitrary()
    }
}

impl BitOr<&CpuSet> for &CpuSet {
    type Output = CpuSet;

    /// The indices that are set in either bitmap.
    fn bitor(self, rhs: &CpuSet) -> (r: CpuSet)
        ensures
            r@ == self@.union(rhs@),
    {
        let r = CpuSet(self.0.combined(&rhs.0, SetOp::Or));
        assert(r@ =~= self@.union(rhs@));
        r
    }
}

impl BitOrSpecImpl<&CpuSet> for &CpuSet {
    /// The result is a new bitmap, which no specification can name as a
    /// value: what it holds is stated on `bitor` itself.
    open spec fn obeys_bitor_spec() -> bool {
        false
    }

    open spec fn bitor_req(self, rhs: &CpuSet) -> bool {
        true
    }

    open spec fn bitor_spec(self, rhs: &CpuSet) -> CpuSet {
        arbitrary()
    }
}

impl BitOr<&CpuSet> for CpuSet {
    type Output = CpuSet;

    /// The indices that are set in either bitmap.
    fn bitor(self, rhs: &CpuSet) -> (r: CpuSet)
        ensures
            r@ == self@.union(rhs@),
    {
        let r = CpuSet(self.0.combined(&rhs.0, SetOp::Or));
        assert(r@ =~= self@.union(rhs@));
        r
    }
}

impl BitOrSpecImpl<&CpuSet> for CpuSet {
    /// The result is a new bitmap, which no specification can name as a
    /// value: what it holds is stated on `bitor` itself.
    open spec fn obeys_bitor_spec() -> bool {
        false
    }

    open spec fn bitor_req(self, rhs: &CpuSet) -> bool {
        true
    }

    open spec fn bitor_spec(self, rhs: &CpuSet) -> CpuSet {
        arbitrary()
    }
}

impl BitXor<&CpuSet> for &CpuSet {
    type Output = CpuSet;

    /// The indices that are set in exactly one of the bitmaps.
    fn bitxor(self, rhs: &CpuSet) -> (r: CpuSet)
        ensures
            r@ == symmetric_difference(self@, rhs@),
    {
        let r = CpuSet(self.0.combined(&rhs.0, SetOp::Xor));
        assert(r@ =~= symmetric_difference(self@, rhs@));
        r
    }
}

impl BitXorSpecImpl<&CpuSet> for &CpuSet {
    /// The result is a new bitmap, which no specification can name as a
    /// value: what it holds is stated on `bitxor` itself.
    open spec fn obeys_bitxor_spec() -> bool {
        false
    }

    open spec fn bitxor_req(self, rhs: &CpuSet) -> bool {
        true
    }

    open spec fn bitxor_spec(self, rhs: &CpuSet) -> CpuSet {
        arbitrary()
    }
}

impl BitXor<&CpuSet> for CpuSet {
    type Output = CpuSet;

    /// The indices that are set in exactly one of the bitmaps.
    fn bitxor(self, rhs: &CpuSet) -> (r: CpuSet)
        ensures
            r@ == symmetric_difference(self@, rhs@),
    {
        let r = CpuSet(self.0.combined(&rhs.0, SetOp::Xor));
        assert(r@ =~= symmetric_difference(self@, rhs@));
        r
    }
}

impl BitXorSpecImpl<&CpuSet> for CpuSet {
    /// The result is a new bitmap, which no specification can name as a
    /// value: what it holds is stated on `bitxor` itself.
    open spec fn obeys_bitxor_spec() -> bool {
        false
    }

    open spec fn bitxor_req(self, rhs: &CpuSet) -> bool {
        true
    }

    open spec fn bitxor_spec(self, rhs: &CpuSet) -> CpuSet {
        arbitrary()
    }
}

impl Sub<&CpuSet> for &CpuSet {
    type Output = CpuSet;

    /// The indices that are set in `self` and not in `rhs`.
    fn sub(self, rhs: &CpuSet) -> (r: CpuSet)
        ensures
            r@ == self@.difference(rhs@),
    {
        let r = CpuSet(self.0.combined(&rhs.0, SetOp::AndNot));
        assert(r@ =~= self@.difference(rhs@));
        r
    }
}

impl SubSpecImpl<&CpuSet> for &CpuSet {
    /// The result is a new bitmap, which no specification can name as a
    /// value: what it holds is stated on `sub` itself.
    open spec fn obeys_sub_spec() -> bool {
        false
    }

    open spec fn sub_req(self, rhs: &CpuSet) -> bool {
        true
    }

    open spec fn sub_spec(self, rhs: &CpuSet) -> CpuSet {
        arbitrary()
    }
}

impl Sub<&CpuSet> for CpuSet {
    type Output = CpuSet;

    /// The indices that are set in `self` and not in `rhs`.
    fn sub(self, rhs: &CpuSet) -> (r: CpuSet)
        ensures
            r@ == self@.difference(rhs@),
    {
        let r = CpuSet(self.0.combined(&rhs.0, SetOp::AndNot));
        assert(r@ =~= self@.difference(rhs@));
        r
    }
}

impl SubSpecImpl<&CpuSet> for CpuSet {
    /// The result is a new bitmap, which no specification can name as a
    /// value: what it holds is stated on `sub` itself.
    open spec fn obeys_sub_spec() -> bool {
        false
    }

    open spec fn sub_req(self, rhs: &CpuSet) -> bool {
        true
    }

    open spec fn sub_spec(self, rhs: &CpuSet) -> CpuSet {
        arbitrary()
    }
}

impl Not for &CpuSet {
    type Output = CpuSet;

    /// The indices that are not set in `self`.
    fn not(self) -> (r: CpuSet)
        ensures
            r@ == complement(self@),
    {
        CpuSet(self.0.inverted())
    }
}

impl NotSpecImpl for &CpuSet {
    /// The result is a new bitmap, which no specification can name as a
    /// value: what it holds is stated on `not` itself.
    open spec fn obeys_not_spec() -> bool {
        false
    }

    open spec fn not_req(self) -> bool {
        true
    }

    open spec fn not_spec(self) -> CpuSet {
        arbitrary()
    }
}

impl Not for CpuSet {
    type Output = CpuSet;

    /// The indices that are not set in `self`.
    fn not(self) -> (r: CpuSet)
        ensures
            r@ == complement(self@),
    {
        CpuSet(self.0.inverted())
    }
}

impl NotSpecImpl for CpuSet {
    /// The result is a new bitmap, which no specification can name as a
    /// value: what it holds is stated on `not` itself.
    open spec fn obeys_not_spec() -> bool {
        false
    }

    open spec fn not_req(self) -> bool {
        true
    }

    open spec fn not_spec(self) -> CpuSet {
        arbitrary()
    }
}

impl BitAndAssign<&CpuSet> for CpuSet {
    fn bitand_assign(&mut self, rhs: &CpuSet)
        ensures
            final(self)@ == old(self)@.intersect(rhs@),
    {
        let r = self.0.combined(&rhs.0, SetOp::And);
        assert(r@ =~= self@.intersect(rhs@));
        self.0 = r;
    }
}

impl BitOrAssign<&CpuSet> for CpuSet {
    fn bitor_assign(&mut self, rhs: &CpuSet)
        ensures
            final(self)@ == old(self)@.union(rhs@),
    {
        let r = self.0.combined(&rhs.0, SetOp::Or);
        assert(r@ =~= self@.union(rhs@));
        self.0 = r;
    }
}

impl BitXorAssign<&CpuSet> for CpuSet {
    fn bitxor_assign(&mut self, rhs: &CpuSet)
        ensures
            final(self)@ == symmetric_difference(old(self)@, rhs@),
    {
        let r = self.0.combined(&rhs.0, SetOp::Xor);
        assert(r@ =~= symmetric_difference(self@, rhs@));
        self.0 = r;
    }
}

impl SubAssign<&CpuSet> for CpuSet {
    fn sub_assign(&mut self, rhs: &CpuSet)
        ensures
            final(self)@ == old(self)@.difference(rhs@),
    {
        let r = self.0.combined(&rhs.0, SetOp::AndNot);
        assert(r@ =~= self@.difference(rhs@));
        self.0 = r;
    }
}

} // verus!
