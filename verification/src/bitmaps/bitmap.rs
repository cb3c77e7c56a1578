//! Owned bitmaps.

use super::indices::{BitmapIndex, MAX_INDEX};
use super::model::{canonical, complement, is_greatest, is_least, members, naturals};
use super::ranges::IndexRange;
use super::raw::{after, RawBitmap};
use super::render::list_text;
use super::toggles::SetOp;
use vstd::prelude::*;
use vstd::std_specs::convert::FromSpecImpl;

verus! {

/// The integers that the indices of `s` stand for.
pub open spec fn index_values(s: Seq<BitmapIndex>) -> Set<int> {
    Set::new(|i: int| exists|k: int| 0 <= k < s.len() && (#[trigger] s[k])@ == i)
}

/// The set of the values of a finite collection of indices is finite, and no
/// larger than the collection.
pub proof fn lemma_index_values_count(indices: Seq<BitmapIndex>)
    ensures
        index_values(indices).finite(),
        index_values(indices).len() <= indices.len(),
        indices.no_duplicates() ==> index_values(indices).len() == indices.len(),
    decreases indices.len(),
{
    if indices.len() == 0 {
        assert(index_values(indices) =~= Set::<int>::empty());
    } else {
        let before = indices.drop_last();
        let last = indices.last();
        lemma_index_values_count(before);
        assert forall|i: int|
            index_values(indices).contains(i) == (index_values(before).contains(i) || i
                == last@) by {
            if index_values(before).contains(i) {
                let k = choose|k: int| 0 <= k < before.len() && (#[trigger] before[k])@ == i;
                assert(indices[k]@ == i);
            }
            if i == last@ {
                assert(indices[indices.len() - 1]@ == i);
            }
            if index_values(indices).contains(i) {
                let k = choose|k: int| 0 <= k < indices.len() && (#[trigger] indices[k])@ == i;
                if k < before.len() {
                    assert(before[k]@ == i);
                }
            }
        }
        assert(index_values(indices) =~= index_values(before).insert(last@));
        if indices.no_duplicates() {
            assert(before.no_duplicates());
            if index_values(before).contains(last@) {
                let k = choose|k: int|
                    0 <= k < before.len() && (#[trigger] before[k])@ == last@;
                indices[k].lemma_view_injective(last);
                assert(indices[k] == indices[indices.len() - 1]);
            }
        }
    }
}

/// A set of indices, possibly infinite
///
/// A bitmap holds non-negative integers. It may be infinite: from some index
/// on, every index may be set. It may even be full, with every index set.
///
/// Copying a bitmap gives an independent bitmap. Operators such as `&` and
/// `|` build a new bitmap; methods such as [`Bitmap::set`] change the bitmap
/// in place.
#[derive(Debug)]
pub struct Bitmap {
    raw: RawBitmap,
}

impl View for Bitmap {
    type V = Set<int>;

    /// The set of indices that the bitmap holds.
    closed spec fn view(&self) -> Set<int> {
        self.raw@
    }
}

impl Bitmap {
    /// The indices at which membership changes, in ascending order. The
    /// textual form of the bitmap is written from these.
    pub closed spec fn toggles(&self) -> Seq<u32> {
        self.raw.toggles()
    }

    /// Every bitmap is well formed: its storage is in normal form.
    #[verifier::type_invariant]
    pub closed spec fn wf(&self) -> bool {
        self.raw.wf()
    }

    /// The storage of this bitmap, in specifications.
    pub closed spec fn raw(&self) -> RawBitmap {
        self.raw
    }

    // === Storage ===

    /// Wraps a bitmap storage, taking ownership of it.
    pub fn from_owned_raw(raw: RawBitmap) -> (r: Bitmap)
        ensures
            r@ == raw@,
            r.toggles() == raw.toggles(),
            r.raw() == raw,
            r.wf(),
    {
        proof {
            use_type_invariant(&raw);
        }
        Bitmap { raw }
    }

    /// Unwraps the storage of the bitmap.
    pub fn into_raw(self) -> (raw: RawBitmap)
        ensures
            raw@ == self@,
            raw.toggles() == self.toggles(),
            raw == self.raw(),
    {
        self.raw
    }

    /// The storage of the bitmap.
    pub fn as_raw(&self) -> (raw: &RawBitmap)
        ensures
            raw@ == self@,
            raw.toggles() == self.toggles(),
            *raw == self.raw(),
    {
        &self.raw
    }

    // === Constructors ===

    /// Creates an empty `Bitmap`
    pub fn new() -> (r: Bitmap)
        ensures
            r@ == Set::<int>::empty(),
            r.wf(),
    {
        Bitmap::from_owned_raw(RawBitmap::empty())
    }

    /// Creates a full `Bitmap`
    pub fn full() -> (r: Bitmap)
        ensures
            r@ == naturals(),
            r.wf(),
    {
        Bitmap::from_owned_raw(RawBitmap::full())
    }

    /// Creates a new `Bitmap` with the given range of indices set
    pub fn from_range(range: IndexRange) -> (r: Bitmap)
        ensures
            r@ == range@,
            r.wf(),
    {
        let mut bitmap = Bitmap::new();
        bitmap.set_range(range);
        proof {
            use_type_invariant(&bitmap);
            assert(bitmap@ =~= range@);
        }
        bitmap
    }

    /// Creates a new `Bitmap` with the given indices set
    pub fn from_indices(indices: &[BitmapIndex]) -> (r: Bitmap)
        ensures
            r@ == index_values(indices@),
            r@.finite(),
            indices@.no_duplicates() ==> r@.len() == indices.len(),
            r.wf(),
    {
        let mut bitmap = Bitmap::new();
        bitmap.extend(indices);
        proof {
            use_type_invariant(&bitmap);
            assert(bitmap@ =~= index_values(indices@));
            lemma_index_values_count(indices@);
        }
        bitmap
    }

    // === Getters and setters ===

    /// Turn this `Bitmap` into a copy of another `Bitmap`
    pub fn copy_from(&mut self, other: &Bitmap)
        ensures
            final(self)@ == other@,
            final(self).toggles() == other.toggles(),
    {
        self.raw = other.raw.clone();
    }

    /// Clear all indices
    pub fn clear(&mut self)
        ensures
            final(self)@ == Set::<int>::empty(),
    {
        self.raw = RawBitmap::empty();
    }

    /// Set all indices
    pub fn fill(&mut self)
        ensures
            final(self)@ == naturals(),
    {
        self.raw = RawBitmap::full();
    }

    /// Clear all indices except for `idx`, which is set
    pub fn set_only(&mut self, idx: BitmapIndex)
        ensures
            final(self)@ == set![idx@],
    {
        self.raw = RawBitmap::singleton(idx);
    }

    /// Set all indices except for `idx`, which is cleared
    pub fn set_all_but(&mut self, idx: BitmapIndex)
        ensures
            final(self)@ == naturals().remove(idx@),
    {
        self.raw = RawBitmap::singleton(idx).complemented();
        assert(self@ =~= naturals().remove(idx@));
    }

    /// Set index `idx`
    pub fn set(&mut self, idx: BitmapIndex)
        ensures
            final(self)@ == old(self)@.insert(idx@),
    {
        self.raw = self.raw.combined(&RawBitmap::singleton(idx), SetOp::Or);
        assert(self@ =~= old(self)@.insert(idx@));
    }

    /// Set indices covered by `range`
    ///
    /// A range without an end on either side sets every index, as
    /// [`Bitmap::fill`] does.
    pub fn set_range(&mut self, range: IndexRange)
        ensures
            final(self)@ == old(self)@.union(range@),
    {
        if range.is_unbounded() {
            proof {
                use_type_invariant(&*self);
                self.lemma_members_are_indices();
                assert(self@.union(range@) =~= naturals());
            }
            self.fill();
            return;
        }
        let covered = RawBitmap::interval(range.to_raw());
        self.raw = self.raw.combined(&covered, SetOp::Or);
        assert(self@ =~= old(self)@.union(range@));
    }

    /// Clear index `idx`
    pub fn unset(&mut self, idx: BitmapIndex)
        ensures
            final(self)@ == old(self)@.remove(idx@),
    {
        self.raw = self.raw.combined(&RawBitmap::singleton(idx), SetOp::AndNot);
        assert(self@ =~= old(self)@.remove(idx@));
    }

    /// Clear indices covered by `range`
    ///
    /// A range without an end on either side clears every index, as
    /// [`Bitmap::clear`] does.
    pub fn unset_range(&mut self, range: IndexRange)
        ensures
            final(self)@ == old(self)@.difference(range@),
    {
        if range.is_unbounded() {
            proof {
                use_type_invariant(&*self);
                self.lemma_members_are_indices();
                assert(self@.difference(range@) =~= Set::<int>::empty());
            }
            self.clear();
            return;
        }
        let covered = RawBitmap::interval(range.to_raw());
        self.raw = self.raw.combined(&covered, SetOp::AndNot);
        assert(self@ =~= old(self)@.difference(range@));
    }

    /// Keep a single index among those set in the bitmap
    ///
    /// The index that is kept is the lowest index that was set. A bitmap in
    /// which no index up to [`MAX_INDEX`] is set, such as the empty bitmap,
    /// is left unchanged.
    pub fn singlify(&mut self)
        ensures
            forall|m: int|
                m <= MAX_INDEX && is_least(old(self)@, m) ==> final(self)@ == set![m],
            (forall|i: int| 0 <= i <= MAX_INDEX ==> !old(self)@.contains(i)) ==> final(self)@
                == old(self)@,
            final(self)@.subset_of(old(self)@),
            (exists|i: int| 0 <= i <= MAX_INDEX && old(self)@.contains(i)) ==> {
                &&& final(self)@.finite()
                &&& final(self)@.len() == 1
            },
    {
        proof {
            use_type_invariant(&*self);
            self.lemma_members_are_indices();
        }
        match self.raw.first_set() {
            Some(first) => {
                proof {
                    first.lemma_in_range();
                    assert forall|m: int| is_least(self@, m) implies m == first@ by {
                        if m < first@ {
                            assert(!self@.contains(m));
                        } else if first@ < m {
                            assert(!self@.contains(first@));
                        }
                    }
                }
                self.raw = RawBitmap::singleton(first);
            },
            None => {},
        }
    }

    /// Check if index `idx` is set
    pub fn is_set(&self, idx: BitmapIndex) -> (r: bool)
        ensures
            r == self@.contains(idx@),
    {
        self.raw.is_set(idx)
    }

    /// Check if all indices are unset
    pub fn is_empty(&self) -> (r: bool)
        ensures
            r == (self@ == Set::<int>::empty()),
    {
        self.raw.is_empty()
    }

    /// Check if all indices are set
    pub fn is_full(&self) -> (r: bool)
        ensures
            r == (self@ == naturals()),
    {
        self.raw.is_full()
    }

    /// Check the first set index, if any
    ///
    /// The result is `None` when no index up to [`MAX_INDEX`] is set.
    pub fn first_set(&self) -> (r: Option<BitmapIndex>)
        ensures
            match r {
                Some(m) => is_least(self@, m@) && m.wf(),
                None => forall|i: int| 0 <= i <= MAX_INDEX ==> !self@.contains(i),
            },
    {
        self.raw.first_set()
    }

    /// Check the last set index, if any
    ///
    /// The result is `None` when the bitmap is empty, and when it is
    /// infinite.
    pub fn last_set(&self) -> (r: Option<BitmapIndex>)
        ensures
            match r {
                Some(m) => is_greatest(self@, m@) && m.wf(),
                None => self@ == Set::<int>::empty() || !self@.finite(),
            },
    {
        self.raw.last_set()
    }

    /// The number of indices that are set in the bitmap.
    ///
    /// None means that an infinite number of indices are set.
    pub fn weight(&self) -> (w: Option<usize>)
        ensures
            match w {
                Some(n) => self@.finite() && self@.len() == n,
                None => !self@.finite(),
            },
    {
        self.raw.weight()
    }

    /// Check the first unset index, if any
    ///
    /// The result is `None` when every index up to [`MAX_INDEX`] is set.
    pub fn first_unset(&self) -> (r: Option<BitmapIndex>)
        ensures
            match r {
                Some(m) => is_least(complement(self@), m@) && m.wf(),
                None => forall|i: int| 0 <= i <= MAX_INDEX ==> self@.contains(i),
            },
    {
        self.raw.first_unset()
    }

    /// Check the last unset index, if any
    ///
    /// The result is `None` when the bitmap is full, and when it is finite.
    pub fn last_unset(&self) -> (r: Option<BitmapIndex>)
        ensures
            match r {
                Some(m) => is_greatest(complement(self@), m@) && m.wf(),
                None => self@ == naturals() || self@.finite(),
            },
    {
        self.raw.last_unset()
    }

    /// Inverts the current `Bitmap`.
    pub fn invert(&mut self)
        ensures
            final(self)@ == complement(old(self)@),
    {
        self.raw = self.raw.complemented();
    }

    /// Truth that `self` and `rhs` have some set indices in common
    pub fn intersects(&self, rhs: &Bitmap) -> (r: bool)
        ensures
            r == !self@.disjoint(rhs@),
    {
        self.raw.intersects(&rhs.raw)
    }

    /// Truth that the indices set in `inner` are a subset of those set in `self`.
    ///
    /// The empty bitmap is considered included in any other bitmap.
    pub fn includes(&self, inner: &Bitmap) -> (r: bool)
        ensures
            r == inner@.subset_of(self@),
    {
        self.raw.includes(&inner.raw)
    }

    /// Set every index of `indices`
    pub fn extend(&mut self, indices: &[BitmapIndex])
        ensures
            final(self)@ == old(self)@.union(index_values(indices@)),
    {
        let mut k: usize = 0;
        while k < indices.len()
            invariant
                k <= indices.len(),
                self@ == old(self)@.union(index_values(indices@.take(k as int))),
            decreases indices.len() - k,
        {
            let ghost before = self@;
            self.set(indices[k]);
            k += 1;
            proof {
                let done = indices@.take(k as int);
                let prev = indices@.take(k - 1);
                assert forall|i: int|
                    index_values(done).contains(i) == (index_values(prev).contains(i) || i
                        == indices@[k - 1]@) by {
                    if index_values(prev).contains(i) {
                        let j = choose|j: int| 0 <= j < prev.len() && (#[trigger] prev[j])@ == i;
                        assert(done[j]@ == i);
                    }
                    if i == indices@[k - 1]@ {
                        assert(done[k - 1]@ == i);
                    }
                    if index_values(done).contains(i) {
                        let j = choose|j: int| 0 <= j < done.len() && (#[trigger] done[j])@ == i;
                        if j < k - 1 {
                            assert(prev[j]@ == i);
                        }
                    }
                }
                assert(self@ =~= old(self)@.union(index_values(done)));
            }
        }
        proof {
            assert(indices@.take(k as int) =~= indices@);
        }
    }

    /// The lowest set index above `prev`, or the lowest set index of all
    /// when `prev` is `None`
    pub fn next_set(&self, prev: Option<BitmapIndex>) -> (r: Option<BitmapIndex>)
        ensures
            match r {
                Some(m) => {
                    &&& after(prev) <= m@
                    &&& self@.contains(m@)
                    &&& forall|j: int| after(prev) <= j < m@ ==> !self@.contains(j)
                    &&& m.wf()
                },
                None => forall|j: int| after(prev) <= j <= MAX_INDEX ==> !self@.contains(j),
            },
    {
        self.raw.next_set(prev)
    }

    /// The lowest unset index above `prev`, or the lowest unset index of all
    /// when `prev` is `None`
    pub fn next_unset(&self, prev: Option<BitmapIndex>) -> (r: Option<BitmapIndex>)
        ensures
            match r {
                Some(m) => {
                    &&& after(prev) <= m@
                    &&& !self@.contains(m@)
                    &&& forall|j: int| after(prev) <= j < m@ ==> self@.contains(j)
                    &&& m.wf()
                },
                None => forall|j: int| after(prev) <= j <= MAX_INDEX ==> self@.contains(j),
            },
    {
        self.raw.next_unset(prev)
    }

    /// The bitmap in its textual form: its runs in ascending order,
    /// separated by commas
    pub fn to_string(&self) -> (text: String)
        ensures
            text@ == list_text(self.toggles()),
    {
        self.raw.text()
    }

    /// The toggles of a bitmap are in normal form, and describe the set that
    /// the bitmap holds.
    pub proof fn lemma_toggles_describe(&self)
        requires
            self.wf(),
        ensures
            canonical(self.toggles()),
            self@ == members(self.toggles()),
    {
    }

    /// Every member of a finite bitmap is an index: none lies above
    /// [`MAX_INDEX`].
    pub proof fn lemma_finite_members_are_indices(&self)
        requires
            self.wf(),
            self@.finite(),
        ensures
            forall|i: int| self@.contains(i) ==> 0 <= i <= MAX_INDEX,
    {
        self.raw.lemma_finite_members_are_indices();
    }

    /// Every member of a bitmap is a non-negative integer.
    pub proof fn lemma_members_are_indices(&self)
        requires
            self.wf(),
        ensures
            self@.subset_of(naturals()),
    {
        self.raw.lemma_members_are_indices();
    }
}

impl Clone for Bitmap {
    fn clone(&self) -> (r: Bitmap)
        ensures
            r@ == self@,
            r.toggles() == self.toggles(),
            r.wf(),
    {
        Bitmap::from_owned_raw(self.raw.clone())
    }
}

impl From<BitmapIndex> for Bitmap {
    /// The bitmap that holds `idx` alone.
    fn from(idx: BitmapIndex) -> (r: Bitmap)
        ensures
            r@ == set![idx@],
            r.wf(),
    {
        Bitmap::from_owned_raw(RawBitmap::singleton(idx))
    }
}

impl FromSpecImpl<BitmapIndex> for Bitmap {
    /// The result is a new bitmap, which no specification can name as a
    /// value: what it holds is stated on `from` itself.
    open spec fn obeys_from_spec() -> bool {
        false
    }

    open spec fn from_spec(idx: BitmapIndex) -> Bitmap {
        arbitrary()
    }
}

impl Default for Bitmap {
    fn default() -> (r: Bitmap)
        ensures
            r@ == Set::<int>::empty(),
            r.wf(),
    {
        Bitmap::new()
    }
}

} // verus!
