//! Sets of NUMA nodes.

use crate::bitmaps::bitmap::{index_values, Bitmap};
use crate::bitmaps::compare::set_order;
use crate::bitmaps::indices::{BitmapIndex, MAX_INDEX};
use crate::bitmaps::iter::BitmapIterator;
use crate::bitmaps::model::{complement, is_greatest, is_least, naturals, symmetric_difference};
use crate::bitmaps::order::precedes;
use crate::bitmaps::ranges::IndexRange;
use crate::bitmaps::raw::RawBitmap;
use crate::bitmaps::refs::{BitmapLike, BitmapRef};
use crate::bitmaps::render::list_text;
use crate::bitmaps::special::{BitmapKind, SpecializedBitmap};
use crate::bitmaps::toggles::SetOp;
use crate::sealed::Sealed;
use core::cmp::Ordering;
use core::ops::{
    BitAnd, BitAndAssign, BitOr, BitOrAssign, BitXor, BitXorAssign, Not, Sub, SubAssign,
};
use vstd::prelude::*;
use vstd::std_specs::cmp::{PartialEqSpecImpl, PartialOrdSpecImpl};
use vstd::std_specs::convert::FromSpecImpl;
use vstd::std_specs::ops::{
    BitAndSpecImpl, BitOrSpecImpl, BitXorSpecImpl, NotSpecImpl, SubSpecImpl,
};
use vstd::string::*;

verus! {

/// A bitmap of NUMA nodes
///
/// A `NodeSet` is a [`Bitmap`] whose indices are
/// the operating system numbers of NUMA nodes. It has every operation of a bitmap,
/// and its operators only take another `NodeSet`.
#[derive(Debug)]
pub struct NodeSet(Bitmap);

impl View for NodeSet {
    type V = Set<int>;

    /// The set of indices that the bitmap holds.
    closed spec fn view(&self) -> Set<int> {
        self.0@
    }
}

/// The textual form of a `NodeSet` whose storage has the toggles `toggles`:
/// the name of the type, and the list of runs in round brackets.
pub open spec fn nodeset_text(toggles: Seq<u32>) -> Seq<char> {
    "NodeSet("@ + list_text(toggles) + ")"@
}

impl NodeSet {
    /// The indices at which membership changes, in ascending order.
    pub closed spec fn toggles(&self) -> Seq<u32> {
        self.0.toggles()
    }

    /// The plain bitmap inside, in specifications.
    pub closed spec fn inner(&self) -> Bitmap {
        self.0
    }

    // === Constructors ===

    /// Create an empty bitmap
    pub fn new() -> (r: NodeSet)
        ensures
            r@ == Set::<int>::empty(),
    {
        NodeSet(Bitmap::new())
    }

    /// Create a full bitmap
    pub fn full() -> (r: NodeSet)
        ensures
            r@ == naturals(),
    {
        NodeSet(Bitmap::full())
    }

    /// Creates a new bitmap with the given range of indices set
    pub fn from_range(range: IndexRange) -> (r: NodeSet)
        ensures
            r@ == range@,
    {
        NodeSet(Bitmap::from_range(range))
    }

    /// Creates a new bitmap with the given indices set
    pub fn from_indices(indices: &[BitmapIndex]) -> (r: NodeSet)
        ensures
            r@ == index_values(indices@),
            r@.finite(),
            indices@.no_duplicates() ==> r@.len() == indices.len(),
    {
        NodeSet(Bitmap::from_indices(indices))
    }

    // === Getters and setters ===

    /// Turn this bitmap into a copy of another bitmap
    pub fn copy_from(&mut self, other: &NodeSet)
        ensures
            final(self)@ == other@,
            final(self).toggles() == other.toggles(),
    {
        self.0.copy_from(&other.0)
    }

    /// Clear all indices
    pub fn clear(&mut self)
        ensures
            final(self)@ == Set::<int>::empty(),
    {
        self.0.clear()
    }

    /// Set all indices
    pub fn fill(&mut self)
        ensures
            final(self)@ == naturals(),
    {
        self.0.fill()
    }

    /// Clear all indices except for `idx`, which is set
    pub fn set_only(&mut self, idx: BitmapIndex)
        ensures
            final(self)@ == set![idx@],
    {
        self.0.set_only(idx)
    }

    /// Set all indices except for `idx`, which is cleared
    pub fn set_all_but(&mut self, idx: BitmapIndex)
        ensures
            final(self)@ == naturals().remove(idx@),
    {
        self.0.set_all_but(idx)
    }

    /// Set index `idx`
    pub fn set(&mut self, idx: BitmapIndex)
        ensures
            final(self)@ == old(self)@.insert(idx@),
    {
        self.0.set(idx)
    }

    /// Set indices covered by `range`
    pub fn set_range(&mut self, range: IndexRange)
        ensures
            final(self)@ == old(self)@.union(range@),
    {
        self.0.set_range(range)
    }

    /// Clear index `idx`
    pub fn unset(&mut self, idx: BitmapIndex)
        ensures
            final(self)@ == old(self)@.remove(idx@),
    {
        self.0.unset(idx)
    }

    /// Clear indices covered by `range`
    pub fn unset_range(&mut self, range: IndexRange)
        ensures
            final(self)@ == old(self)@.difference(range@),
    {
        self.0.unset_range(range)
    }

    /// Keep a single index among those set in the bitmap
    ///
    /// The index that is kept is the lowest index that was set. A bitmap in
    /// which no index up to [`MAX_INDEX`] is set is left unchanged.
    pub fn singlify(&mut self)
        ensures
            forall|m: int|
                m <= MAX_INDEX && is_least(old(self)@, m) ==> final(self)@ == set![m],
            (forall|i: int| 0 <= i <= MAX_INDEX ==> !old(self)@.contains(i)) ==> final(self)@
                == old(self)@,
            final(self)@.subset_of(old(self)@),
            (exists|i: int| 0 <= i <= MAX_INDEX && old(self)@.contains(i)) ==> {
                &&& final(self)@.finite()
                &&& final(self)@.len() == 1
            },
    {
        self.0.singlify()
    }

    /// Inverts the current bitmap
    pub fn invert(&mut self)
        ensures
            final(self)@ == complement(old(self)@),
    {
        self.0.invert()
    }

    /// Set every index of `indices`
    pub fn extend(&mut self, indices: &[BitmapIndex])
        ensures
            final(self)@ == old(self)@.union(index_values(indices@)),
    {
        self.0.extend(indices)
    }

    /// Check if index `idx` is set
    pub fn is_set(&self, idx: BitmapIndex) -> (r: bool)
        ensures
            r == self@.contains(idx@),
    {
        self.0.is_set(idx)
    }

    /// Check if all indices are unset
    pub fn is_empty(&self) -> (r: bool)
        ensures
            r == (self@ == Set::<int>::empty()),
    {
        self.0.is_empty()
    }

    /// Check if all indices are set
    pub fn is_full(&self) -> (r: bool)
        ensures
            r == (self@ == naturals()),
    {
        self.0.is_full()
    }

    /// Check the first set index, if any
    ///
    /// The result is `None` when no index up to [`MAX_INDEX`] is set.
    pub fn first_set(&self) -> (r: Option<BitmapIndex>)
        ensures
            match r {
                Some(m) => is_least(self@, m@) && m.wf(),
                None => forall|i: int| 0 <= i <= MAX_INDEX ==> !self@.contains(i),
            },
    {
        self.0.first_set()
    }

    /// Check the last set index, if any
    ///
    /// The result is `None` when the bitmap is empty, and when it is
    /// infinite.
    pub fn last_set(&self) -> (r: Option<BitmapIndex>)
        ensures
            match r {
                Some(m) => is_greatest(self@, m@) && m.wf(),
                None => self@ == Set::<int>::empty() || !self@.finite(),
            },
    {
        self.0.last_set()
    }

    /// The number of indices that are set in the bitmap.
    ///
    /// None means that an infinite number of indices are set.
    pub fn weight(&self) -> (w: Option<usize>)
        ensures
            match w {
                Some(n) => self@.finite() && self@.len() == n,
                None => !self@.finite(),
            },
    {
        self.0.weight()
    }

    /// Check the first unset index, if any
    ///
    /// The result is `None` when every index up to [`MAX_INDEX`] is set.
    pub fn first_unset(&self) -> (r: Option<BitmapIndex>)
        ensures
            match r {
                Some(m) => is_least(complement(self@), m@) && m.wf(),
                None => forall|i: int| 0 <= i <= MAX_INDEX ==> self@.contains(i),
            },
    {
        self.0.first_unset()
    }

    /// Check the last unset index, if any
    ///
    /// The result is `None` when the bitmap is full, and when it is finite.
    pub fn last_unset(&self) -> (r: Option<BitmapIndex>)
        ensures
            match r {
                Some(m) => is_greatest(complement(self@), m@) && m.wf(),
                None => self@ == naturals() || self@.finite(),
            },
    {
        self.0.last_unset()
    }

    /// Truth that `self` and `rhs` have some set indices in common
    pub fn intersects(&self, rhs: &NodeSet) -> (r: bool)
        ensures
            r == !self@.disjoint(rhs@),
    {
        self.0.intersects(&rhs.0)
    }

    /// Truth that the indices set in `inner` are a subset of those set in `self`.
    ///
    /// The empty bitmap is considered included in any other bitmap.
    pub fn includes(&self, inner: &NodeSet) -> (r: bool)
        ensures
            r == inner@.subset_of(self@),
    {
        self.0.includes(&inner.0)
    }

    /// Iterate over set indices
    pub fn iter_set(&self) -> (r: BitmapIterator<&Bitmap>)
        ensures
            r.target() == self@,
            r.produces_set(),
            r.position() == 0,
    {
        self.0.iter_set()
    }

    /// Iterate over unset indices
    pub fn iter_unset(&self) -> (r: BitmapIterator<&Bitmap>)
        ensures
            r.target() == self@,
            !r.produces_set(),
            r.position() == 0,
    {
        self.0.iter_unset()
    }

    /// Iterate over set indices, consuming the bitmap
    pub fn into_iter(self) -> (r: BitmapIterator<Bitmap>)
        ensures
            r.target() == self@,
            r.produces_set(),
            r.position() == 0,
    {
        self.0.into_iter()
    }

    /// Borrows a view of this bitmap.
    pub fn as_ref(&self) -> (r: BitmapRef<'_, NodeSet>)
        ensures
            r@ == self@,
            r.toggles() == self.toggles(),
    {
        BitmapRef::borrow_from_raw(self.0.as_raw())
    }

    /// Compares two bitmaps. `Greater` means that `other` comes before
    /// `self`.
    pub fn cmp(&self, other: &NodeSet) -> (r: Ordering)
        ensures
            r == set_order(self@, other@),
            r is Greater <==> precedes(other@, self@),
    {
        self.0.cmp(&other.0)
    }

    /// The bitmap in its textual form: the name of the type, and the list
    /// of its runs in round brackets
    pub fn to_string(&self) -> (text: String)
        ensures
            text@ == nodeset_text(self.toggles()),
    {
        NodeSet::render_raw(self.0.as_raw())
    }
}

impl Sealed for NodeSet {

}

impl BitmapLike for NodeSet {
    open spec fn text_of(toggles: Seq<u32>) -> Seq<char> {
        nodeset_text(toggles)
    }

    fn as_raw(&self) -> (raw: &RawBitmap) {
        self.0.as_raw()
    }

    fn from_raw(raw: RawBitmap) -> (r: NodeSet) {
        NodeSet(Bitmap::from_owned_raw(raw))
    }

    fn render_raw(raw: &RawBitmap) -> (text: String) {
        let list = raw.text();
        let mut text = String::from_str("NodeSet(");
        text.append(list.as_str());
        text.append(")");
        text
    }
}

impl SpecializedBitmap for NodeSet {
    const BITMAP_KIND: BitmapKind = BitmapKind::NodeSet;

    open spec fn kind_of() -> BitmapKind {
        BitmapKind::NodeSet
    }

    fn kind() -> (kind: BitmapKind) {
        BitmapKind::NodeSet
    }

    fn as_bitmap(&self) -> (bitmap: &Bitmap) {
        &self.0
    }

    fn as_bitmap_mut(&mut self) -> (bitmap: &mut Bitmap) {
        &mut self.0
    }

    fn from_bitmap(bitmap: Bitmap) -> (r: NodeSet) {
        NodeSet(bitmap)
    }

    fn into_bitmap(self) -> (bitmap: Bitmap) {
        self.0
    }
}

impl Clone for NodeSet {
    fn clone(&self) -> (r: NodeSet)
        ensures
            r@ == self@,
            r.toggles() == self.toggles(),
    {
        NodeSet(self.0.clone())
    }
}

impl Default for NodeSet {
    fn default() -> (r: NodeSet)
        ensures
            r@ == Set::<int>::empty(),
    {
        NodeSet::new()
    }
}

impl From<Bitmap> for NodeSet {
    /// Gives a plain bitmap this kind. Nothing is lost.
    fn from(bitmap: Bitmap) -> (r: NodeSet)
        ensures
            r@ == bitmap@,
            r.toggles() == bitmap.toggles(),
    {
        NodeSet(bitmap)
    }
}

impl FromSpecImpl<Bitmap> for NodeSet {
    open spec fn obeys_from_spec() -> bool {
        true
    }

    closed spec fn from_spec(bitmap: Bitmap) -> NodeSet {
        NodeSet(bitmap)
    }
}

impl From<BitmapIndex> for NodeSet {
    /// The bitmap that holds `idx` alone.
    fn from(idx: BitmapIndex) -> (r: NodeSet)
        ensures
            r@ == set![idx@],
    {
        NodeSet(Bitmap::from(idx))
    }
}

impl FromSpecImpl<BitmapIndex> for NodeSet {
    /// The result is a new bitmap, which no specification can name as a
    /// value: what it holds is stated on `from` itself.
    open spec fn obeys_from_spec() -> bool {
        false
    }

    open spec fn from_spec(idx: BitmapIndex) -> NodeSet {
        arbitrary()
    }
}

impl From<NodeSet> for Bitmap {
    /// Takes the kind off. Nothing is lost.
    fn from(set: NodeSet) -> (r: Bitmap)
        ensures
            r@ == set@,
            r.toggles() == set.toggles(),
    {
        set.0
    }
}

impl FromSpecImpl<NodeSet> for Bitmap {
    open spec fn obeys_from_spec() -> bool {
        true
    }

    open spec fn from_spec(set: NodeSet) -> Bitmap {
        set.inner()
    }
}

impl PartialEq for NodeSet {
    fn eq(&self, other: &NodeSet) -> (r: bool) {
        self.0.eq(&other.0)
    }
}

impl PartialEqSpecImpl for NodeSet {
    open spec fn obeys_eq_spec() -> bool {
        true
    }

    /// Two bitmaps are equal when they hold the same indices.
    open spec fn eq_spec(&self, other: &NodeSet) -> bool {
        self@ == other@
    }
}

impl Eq for NodeSet {

}

impl PartialOrd for NodeSet {
    fn partial_cmp(&self, other: &NodeSet) -> (r: Option<Ordering>) {
        Some(self.0.cmp(&other.0))
    }
}

impl PartialOrdSpecImpl for NodeSet {
    open spec fn obeys_partial_cmp_spec() -> bool {
        true
    }

    /// Any two bitmaps can be compared.
    open spec fn partial_cmp_spec(&self, other: &NodeSet) -> Option<Ordering> {
        Some(set_order(self@, other@))
    }
}

impl BitAnd<&NodeSet> for &NodeSet {
    type Output = NodeSet;

    /// The indices that are set in both bitmaps.
    fn bitand(self, rhs: &NodeSet) -> (r: NodeSet)
        ensures
            r@ == self@.intersect(rhs@),
    {
        let r = NodeSet(self.0.combined(&rhs.0, SetOp::And));
        assert(r@ =~= self@.intersect(rhs@));
        r
    }
}

impl BitAndSpecImpl<&NodeSet> for &NodeSet {
    /// The result is a new bitmap, which no specification can name as a
    /// value: what it holds is stated on `bitand` itself.
    open spec fn obeys_bitand_spec() -> bool {
        false
    }

    open spec fn bitand_req(self, rhs: &NodeSet) -> bool {
        true
    }

    open spec fn bitand_spec(self, rhs: &NodeSet) -> NodeSet {
        arbitrary()
    }
}

impl BitAnd<&NodeSet> for NodeSet {
    type Output = NodeSet;

    /// The indices that are set in both bitmaps.
    fn bitand(self, rhs: &NodeSet) -> (r: NodeSet)
        ensures
            r@ == self@.intersect(rhs@),
    {
        let r = NodeSet(self.0.combined(&rhs.0, SetOp::And));
        assert(r@ =~= self@.intersect(rhs@));
        r
    }
}

impl BitAndSpecImpl<&NodeSet> for NodeSet {
    /// The result is a new bitmap, which no specification can name as a
    /// value: what it holds is stated on `bitand` itself.
    open spec fn obeys_bitand_spec() -> bool {
        false
    }

    open spec fn bitand_req(self, rhs: &NodeSet) -> bool {
        true
    }

    open spec fn bitand_spec(self, rhs: &NodeSet) -> NodeSet {
        arbitrary()
    }
}

impl BitOr<&NodeSet> for &NodeSet {
    type Output = NodeSet;

    /// The indices that are set in either bitmap.
    fn bitor(self, rhs: &NodeSet) -> (r: NodeSet)
        ensures
            r@ == self@.union(rhs@),
    {
        let r = NodeSet(self.0.combined(&rhs.0, SetOp::Or));
        assert(r@ =~= self@.union(rhs@));
        r
    }
}

impl BitOrSpecImpl<&NodeSet> for &NodeSet {
    /// The result is a new bitmap, which no specification can name as a
    /// value: what it holds is stated on `bitor` itself.
    open spec fn obeys_bitor_spec() -> bool {
        false
    }

    open spec fn bitor_req(self, rhs: &NodeSet) -> bool {
        true
    }

    open spec fn bitor_spec(self, rhs: &NodeSet) -> NodeSet {
        arbitrary()
    }
}

impl BitOr<&NodeSet> for NodeSet {
    type Output = NodeSet;

    /// The indices that are set in either bitmap.
    fn bitor(self, rhs: &NodeSet) -> (r: NodeSet)
        ensures
            r@ == self@.union(rhs@),
    {
        let r = NodeSet(self.0.combined(&rhs.0, SetOp::Or));
        assert(r@ =~= self@.union(rhs@));
        r
    }
}

impl BitOrSpecImpl<&NodeSet> for NodeSet {
    /// The result is a new bitmap, which no specification can name as a
    /// value: what it holds is stated on `bitor` itself.
    open spec fn obeys_bitor_spec() -> bool {
        false
    }

    open spec fn bitor_req(self, rhs: &NodeSet) -> bool {
        true
    }

    open spec fn bitor_spec(self, rhs: &NodeSet) -> NodeSet {
        arbitrary()
    }
}

impl BitXor<&NodeSet> for &NodeSet {
    type Output = NodeSet;

    /// The indices that are set in exactly one of the bitmaps.
    fn bitxor(self, rhs: &NodeSet) -> (r: NodeSet)
        ensures
            r@ == symmetric_difference(self@, rhs@),
    {
        let r = NodeSet(self.0.combined(&rhs.0, SetOp::Xor));
        assert(r@ =~= symmetric_difference(self@, rhs@));
        r
    }
}

impl BitXorSpecImpl<&NodeSet> for &NodeSet {
    /// The result is a new bitmap, which no specification can name as a
    /// value: what it holds is stated on `bitxor` itself.
    open spec fn obeys_bitxor_spec() -> bool {
        false
    }

    open spec fn bitxor_req(self, rhs: &NodeSet) -> bool {
        true
    }

    open spec fn bitxor_spec(self, rhs: &NodeSet) -> NodeSet {
        arbitrary()
    }
}

impl BitXor<&NodeSet> for NodeSet {
    type Output = NodeSet;

    /// The indices that are set in exactly one of the bitmaps.
    fn bitxor(self, rhs: &NodeSet) -> (r: NodeSet)
        ensures
            r@ == symmetric_difference(self@, rhs@),
    {
        let r = NodeSet(self.0.combined(&rhs.0, SetOp::Xor));
        assert(r@ =~= symmetric_difference(self@, rhs@));
        r
    }
}

impl BitXorSpecImpl<&NodeSet> for NodeSet {
    /// The result is a new bitmap, which no specification can name as a
    /// value: what it holds is stated on `bitxor` itself.
    open spec fn obeys_bitxor_spec() -> bool {
        false
    }

    open spec fn bitxor_req(self, rhs: &NodeSet) -> bool {
        true
    }

    open spec fn bitxor_spec(self, rhs: &NodeSet) -> NodeSet {
        arbitrary()
    }
}

impl Sub<&NodeSet> for &NodeSet {
    type Output = NodeSet;

    /// The indices that are set in `self` and not in `rhs`.
    fn sub(self, rhs: &NodeSet) -> (r: NodeSet)
        ensures
            r@ == self@.difference(rhs@),
    {
        let r = NodeSet(self.0.combined(&rhs.0, SetOp::AndNot));
        assert(r@ =~= self@.difference(rhs@));
        r
    }
}

impl SubSpecImpl<&NodeSet> for &NodeSet {
    /// The result is a new bitmap, which no specification can name as a
    /// value: what it holds is stated on `sub` itself.
    open spec fn obeys_sub_spec() -> bool {
        false
    }

    open spec fn sub_req(self, rhs: &NodeSet) -> bool {
        true
    }

    open spec fn sub_spec(self, rhs: &NodeSet) -> NodeSet {
        arbitrary()
    }
}

impl Sub<&NodeSet> for NodeSet {
    type Output = NodeSet;

    /// The indices that are set in `self` and not in `rhs`.
    fn sub(self, rhs: &NodeSet) -> (r: NodeSet)
        ensures
            r@ == self@.difference(rhs@),
    {
        let r = NodeSet(self.0.combined(&rhs.0, SetOp::AndNot));
        assert(r@ =~= self@.difference(rhs@));
        r
    }
}

impl SubSpecImpl<&NodeSet> for NodeSet {
    /// The result is a new bitmap, which no specification can name as a
    /// value: what it holds is stated on `sub` itself.
    open spec fn obeys_sub_spec() -> bool {
        false
    }

    open spec fn sub_req(self, rhs: &NodeSet) -> bool {
        true
    }

    open spec fn sub_spec(self, rhs: &NodeSet) -> NodeSet {
        arbitrary()
    }
}

impl Not for &NodeSet {
    type Output = NodeSet;

    /// The indices that are not set in `self`.
    fn not(self) -> (r: NodeSet)
        ensures
            r@ == complement(self@),
    {
        NodeSet(self.0.inverted())
    }
}

impl NotSpecImpl for &NodeSet {
    /// The result is a new bitmap, which no specification can name as a
    /// value: what it holds is stated on `not` itself.
    open spec fn obeys_not_spec() -> bool {
        false
    }

    open spec fn not_req(self) -> bool {
        true
    }

    open spec fn not_spec(self) -> NodeSet {
        arbitrary()
    }
}

impl Not for NodeSet {
    type Output = NodeSet;

    /// The indices that are not set in `self`.
    fn not(self) -> (r: NodeSet)
        ensures
            r@ == complement(self@),
    {
        NodeSet(self.0.inverted())
    }
}

impl NotSpecImpl for NodeSet {
    /// The result is a new bitmap, which no specification can name as a
    /// value: what it holds is stated on `not` itself.
    open spec fn obeys_not_spec() -> bool {
        false
    }

    open spec fn not_req(self) -> bool {
        true
    }

    open spec fn not_spec(self) -> NodeSet {
        arbitrary()
    }
}

impl BitAndAssign<&NodeSet> for NodeSet {
    fn bitand_assign(&mut self, rhs: &NodeSet)
        ensures
            final(self)@ == old(self)@.intersect(rhs@),
    {
        let r = self.0.combined(&rhs.0, SetOp::And);
        assert(r@ =~= self@.intersect(rhs@));
        self.0 = r;
    }
}

impl BitOrAssign<&NodeSet> for NodeSet {
    fn bitor_assign(&mut self, rhs: &NodeSet)
        ensures
            final(self)@ == old(self)@.union(rhs@),
    {
        let r = self.0.combined(&rhs.0, SetOp::Or);
        assert(r@ =~= self@.union(rhs@));
        self.0 = r;
    }
}

impl BitXorAssign<&NodeSet> for NodeSet {
    fn bitxor_assign(&mut self, rhs: &NodeSet)
        ensures
            final(self)@ == symmetric_difference(old(self)@, rhs@),
    {
        let r = self.0.combined(&rhs.0, SetOp::Xor);
        assert(r@ =~= symmetric_difference(self@, rhs@));
        self.0 = r;
    }
}

impl SubAssign<&NodeSet> for NodeSet {
    fn sub_assign(&mut self, rhs: &NodeSet)
        ensures
            final(self)@ == old(self)@.difference(rhs@),
    {
        let r = self.0.combined(&rhs.0, SetOp::AndNot);
        assert(r@ =~= self@.difference(rhs@));
        self.0 = r;
    }
}

} // verus!
