//! The storage of a bitmap and the operations on it.

use super::indices::{BitmapIndex, MAX_INDEX};
use super::model::{
    canonical, complement, inside, is_greatest, is_least, lemma_canonical_unique,
    lemma_even_is_finite, lemma_finite_iff_even, lemma_inside_rank, lemma_members_nonnegative, members, naturals,
};
use super::order::{compare, precedes};
use super::ranges::RawRange;
use super::render::{list_text, render};
use super::toggles::{combine, duplicate, last, next, rank, same, weight, SetOp};
use vstd::prelude::*;

verus! {

/// The storage of a bitmap: the sorted list of the indices at which
/// membership changes.
///
/// Owned bitmaps hold one of these, and borrowed views point to one.
#[derive(Debug)]
pub struct RawBitmap {
    toggles: Vec<u32>,
}

impl View for RawBitmap {
    type V = Set<int>;

    /// The set of indices that the storage describes.
    open spec fn view(&self) -> Set<int> {
        members(self.toggles())
    }
}

impl RawBitmap {
    /// The indices at which membership changes, in ascending order.
    pub closed spec fn toggles(&self) -> Seq<u32> {
        self.toggles@
    }

    /// The toggles are always in normal form.
    #[verifier::type_invariant]
    pub open spec fn wf(&self) -> bool {
        canonical(self.toggles())
    }

    /// Wraps a toggle list that is in normal form.
    fn from_toggles(toggles: Vec<u32>) -> (r: RawBitmap)
        requires
            canonical(toggles@),
        ensures
            r.toggles() == toggles@,
            r.wf(),
    {
        RawBitmap { toggles }
    }

    /// The storage of the empty set.
    pub fn empty() -> (r: RawBitmap)
        ensures
            r@ == Set::<int>::empty(),
            r.wf(),
    {
        let r = RawBitmap::from_toggles(Vec::new());
        assert(r@ =~= Set::<int>::empty());
        r
    }

    /// The storage of the set of all indices.
    pub fn full() -> (r: RawBitmap)
        ensures
            r@ == naturals(),
            r.wf(),
    {
        let mut toggles: Vec<u32> = Vec::new();
        toggles.push(0);
        let r = RawBitmap::from_toggles(toggles);
        proof {
            assert forall|i: int| r@.contains(i) == (0 <= i) by {
                lemma_inside_rank(
                    r.toggles(),
                    if 0 <= i {
                        1
                    } else {
                        0
                    },
                    i,
                );
            }
            assert(r@ =~= naturals());
        }
        r
    }

    /// The storage of the set that holds `idx` alone.
    pub fn singleton(idx: BitmapIndex) -> (r: RawBitmap)
        ensures
            r@ == set![idx@],
            r.wf(),
    {
        let at = idx.into_c_uint();
        let r = RawBitmap::interval(RawRange { begin: at, end: Some(at) });
        assert(r@ =~= set![idx@]);
        r
    }

    /// The storage of a range of indices.
    pub(crate) fn interval(range: RawRange) -> (r: RawBitmap)
        requires
            range.begin <= MAX_INDEX,
            range.end matches Some(e) ==> e <= MAX_INDEX,
        ensures
            r@ == range@,
            r.wf(),
    {
        let mut toggles: Vec<u32> = Vec::new();
        match range.end {
            Some(end) => {
                if range.begin <= end {
                    toggles.push(range.begin);
                    toggles.push(end + 1);
                }
            },
            None => {
                toggles.push(range.begin);
            },
        }
        let r = RawBitmap::from_toggles(toggles);
        proof {
            let ts = r.toggles();
            assert forall|i: int| r@.contains(i) == range@.contains(i) by {
                if ts.len() == 0 || i < ts[0] {
                    lemma_inside_rank(ts, 0, i);
                } else if ts.len() == 1 || i < ts[1] {
                    lemma_inside_rank(ts, 1, i);
                } else {
                    lemma_inside_rank(ts, 2, i);
                }
            }
            assert(r@ =~= range@);
        }
        r
    }

    /// The storage of a pointwise combination of two sets.
    pub fn combined(&self, other: &RawBitmap, op: SetOp) -> (r: RawBitmap)
        ensures
            forall|i: int| r@.contains(i) == op.apply(self@.contains(i), other@.contains(i)),
            r.wf(),
    {
        proof {
            use_type_invariant(self);
            use_type_invariant(other);
        }
        RawBitmap::from_toggles(combine(&self.toggles, &other.toggles, op))
    }

    /// The storage of the set of the indices that `self` lacks.
    pub fn complemented(&self) -> (r: RawBitmap)
        ensures
            r@ == complement(self@),
            r.wf(),
    {
        let all = RawBitmap::full();
        let r = all.combined(self, SetOp::AndNot);
        assert(r@ =~= complement(self@));
        r
    }

    /// Is `idx` a member?
    pub fn is_set(&self, idx: BitmapIndex) -> (r: bool)
        ensures
            r == self@.contains(idx@),
    {
        proof {
            use_type_invariant(self);
        }
        rank(&self.toggles, idx.into_c_uint()) % 2 == 1
    }

    /// Is the set empty?
    pub fn is_empty(&self) -> (r: bool)
        ensures
            r == (self@ == Set::<int>::empty()),
    {
        proof {
            use_type_invariant(self);
            if self.toggles.len() == 0 {
                assert(self@ =~= Set::<int>::empty());
            } else {
                lemma_inside_rank(self.toggles@, 1, self.toggles@[0] as int);
                assert(self@.contains(self.toggles@[0] as int));
            }
        }
        self.toggles.len() == 0
    }

    /// Does the set hold every index?
    pub fn is_full(&self) -> (r: bool)
        ensures
            r == (self@ == naturals()),
    {
        let all = RawBitmap::full();
        self.equals(&all)
    }

    /// Do the two storages describe the same set?
    pub fn equals(&self, other: &RawBitmap) -> (r: bool)
        ensures
            r == (self@ == other@),
            r == (self.toggles() == other.toggles()),
    {
        proof {
            use_type_invariant(self);
            use_type_invariant(other);
            if self@ == other@ {
                assert forall|i: int| inside(self.toggles@, i) == inside(other.toggles@, i) by {
                    assert(self@.contains(i) == other@.contains(i));
                }
                lemma_canonical_unique(self.toggles@, other.toggles@);
            }
        }
        same(&self.toggles, &other.toggles)
    }

    /// Compares the two sets: -1 when `self` comes first, 1 when `other`
    /// comes first, 0 when they are the same set.
    pub fn compare(&self, other: &RawBitmap) -> (r: i8)
        ensures
            r == -1 || r == 0 || r == 1,
            r == -1 <==> precedes(self@, other@),
            r == 0 <==> self@ == other@,
            r == 1 <==> precedes(other@, self@),
    {
        proof {
            use_type_invariant(self);
            use_type_invariant(other);
            if self@ == other@ {
                assert forall|i: int| inside(self.toggles@, i) == inside(other.toggles@, i) by {
                    assert(self@.contains(i) == other@.contains(i));
                }
                lemma_canonical_unique(self.toggles@, other.toggles@);
            }
        }
        compare(&self.toggles, &other.toggles)
    }

    /// The lowest index above `prev`, or the lowest index of all when `prev`
    /// is `None`, whose membership is `want`.
    pub fn next(&self, prev: Option<BitmapIndex>, want: bool) -> (r: Option<BitmapIndex>)
        ensures
            match r {
                Some(m) => {
                    &&& after(prev) <= m@ <= MAX_INDEX
                    &&& self@.contains(m@) == want
                    &&& forall|j: int| after(prev) <= j < m@ ==> self@.contains(j) != want
                    &&& m.wf()
                },
                None => forall|j: int|
                    after(prev) <= j <= MAX_INDEX ==> self@.contains(j) != want,
            },
    {
        proof {
            use_type_invariant(self);
        }
        let start = match prev {
            Some(p) => match p.checked_succ() {
                Some(s) => s,
                None => {
                    return None;
                },
            },
            None => BitmapIndex::min_value(),
        };
        match next(&self.toggles, start.into_c_uint(), want) {
            Some(m) => match BitmapIndex::try_from_c_uint(m) {
                Ok(idx) => Some(idx),
                Err(_) => None,
            },
            None => None,
        }
    }

    /// The highest index whose membership is `want`, when there is one: when
    /// the indices above it all have the other membership.
    pub fn last(&self, want: bool) -> (r: Option<BitmapIndex>)
        ensures
            match r {
                Some(m) => {
                    &&& self@.contains(m@) == want
                    &&& forall|j: int| j > m@ ==> self@.contains(j) != want
                    &&& m.wf()
                },
                None => {
                    ||| self@.finite() != want
                    ||| forall|j: int| j >= 0 ==> self@.contains(j) != want
                },
            },
    {
        proof {
            use_type_invariant(self);
            lemma_finite_iff_even(self.toggles@);
        }
        match last(&self.toggles, want) {
            Some(m) => match BitmapIndex::try_from_c_uint(m) {
                Ok(idx) => Some(idx),
                Err(_) => None,
            },
            None => None,
        }
    }

    /// The lowest member, unless no index up to [`MAX_INDEX`] is a member.
    pub fn first_set(&self) -> (r: Option<BitmapIndex>)
        ensures
            match r {
                Some(m) => is_least(self@, m@) && m.wf(),
                None => forall|i: int| 0 <= i <= MAX_INDEX ==> !self@.contains(i),
            },
    {
        proof {
            use_type_invariant(self);
            self.lemma_members_are_indices();
        }
        self.next(None, true)
    }

    /// The highest member, unless the set is empty or infinite.
    pub fn last_set(&self) -> (r: Option<BitmapIndex>)
        ensures
            match r {
                Some(m) => is_greatest(self@, m@) && m.wf(),
                None => self@ == Set::<int>::empty() || !self@.finite(),
            },
    {
        proof {
            use_type_invariant(self);
            self.lemma_members_are_indices();
        }
        let r = self.last(true);
        proof {
            if r is None && self@.finite() {
                assert(self@ =~= Set::<int>::empty());
            }
        }
        r
    }

    /// The lowest index that is not a member, unless every index up to
    /// [`MAX_INDEX`] is a member.
    pub fn first_unset(&self) -> (r: Option<BitmapIndex>)
        ensures
            match r {
                Some(m) => is_least(complement(self@), m@) && m.wf(),
                None => forall|i: int| 0 <= i <= MAX_INDEX ==> self@.contains(i),
            },
    {
        self.next(None, false)
    }

    /// The highest index that is not a member, unless the set is full or
    /// finite.
    pub fn last_unset(&self) -> (r: Option<BitmapIndex>)
        ensures
            match r {
                Some(m) => is_greatest(complement(self@), m@) && m.wf(),
                None => self@ == naturals() || self@.finite(),
            },
    {
        proof {
            use_type_invariant(self);
            self.lemma_members_are_indices();
        }
        let r = self.last(false);
        proof {
            match r {
                Some(m) => {
                    m.lemma_in_range();
                },
                None => {
                    if !self@.finite() {
                        assert(self@ =~= naturals());
                    }
                },
            }
        }
        r
    }

    /// The lowest member above `prev`, or the lowest member of all when
    /// `prev` is `None`.
    pub fn next_set(&self, prev: Option<BitmapIndex>) -> (r: Option<BitmapIndex>)
        ensures
            match r {
                Some(m) => {
                    &&& after(prev) <= m@
                    &&& self@.contains(m@)
                    &&& forall|j: int| after(prev) <= j < m@ ==> !self@.contains(j)
                    &&& m.wf()
                },
                None => forall|j: int| after(prev) <= j <= MAX_INDEX ==> !self@.contains(j),
            },
    {
        self.next(prev, true)
    }

    /// The lowest index above `prev` that is not a member, or the lowest
    /// such index of all when `prev` is `None`.
    pub fn next_unset(&self, prev: Option<BitmapIndex>) -> (r: Option<BitmapIndex>)
        ensures
            match r {
                Some(m) => {
                    &&& after(prev) <= m@
                    &&& !self@.contains(m@)
                    &&& forall|j: int| after(prev) <= j < m@ ==> self@.contains(j)
                    &&& m.wf()
                },
                None => forall|j: int| after(prev) <= j <= MAX_INDEX ==> self@.contains(j),
            },
    {
        self.next(prev, false)
    }

    /// The number of members, or `None` when the set is infinite.
    pub fn weight(&self) -> (w: Option<usize>)
        ensures
            match w {
                Some(n) => self@.finite() && self@.len() == n,
                None => !self@.finite(),
            },
    {
        proof {
            use_type_invariant(self);
        }
        weight(&self.toggles)
    }

    /// Have the two sets an index in common?
    pub fn intersects(&self, other: &RawBitmap) -> (r: bool)
        ensures
            r == !self@.disjoint(other@),
    {
        let common = self.combined(other, SetOp::And);
        let none = common.is_empty();
        proof {
            if none {
                assert forall|i: int| !(self@.contains(i) && other@.contains(i)) by {
                    assert(!common@.contains(i));
                }
            } else {
                assert(exists|i: int| common@.contains(i)) by {
                    if forall|i: int| !common@.contains(i) {
                        assert(common@ =~= Set::<int>::empty());
                    }
                }
            }
        }
        !none
    }

    /// Is every member of `inner` a member of `self`?
    pub fn includes(&self, inner: &RawBitmap) -> (r: bool)
        ensures
            r == inner@.subset_of(self@),
    {
        let missing = inner.combined(self, SetOp::AndNot);
        let none = missing.is_empty();
        proof {
            if none {
                assert forall|i: int| inner@.contains(i) implies self@.contains(i) by {
                    assert(!missing@.contains(i));
                }
            } else {
                assert(exists|i: int| missing@.contains(i)) by {
                    if forall|i: int| !missing@.contains(i) {
                        assert(missing@ =~= Set::<int>::empty());
                    }
                }
            }
        }
        none
    }

    /// The set in its textual form.
    pub fn text(&self) -> (text: String)
        ensures
            text@ == list_text(self.toggles()),
    {
        proof {
            use_type_invariant(self);
        }
        render(&self.toggles)
    }

    /// Every member of a finite set is an index: none lies above
    /// [`MAX_INDEX`].
    pub proof fn lemma_finite_members_are_indices(&self)
        requires
            self.wf(),
            self@.finite(),
        ensures
            forall|i: int| self@.contains(i) ==> 0 <= i <= MAX_INDEX,
    {
        lemma_finite_iff_even(self.toggles());
        lemma_even_is_finite(self.toggles());
    }

    /// Every member is a non-negative integer.
    pub proof fn lemma_members_are_indices(&self)
        requires
            self.wf(),
        ensures
            self@.subset_of(naturals()),
    {
        assert forall|i: int| self@.contains(i) implies naturals().contains(i) by {
            if i < 0 {
                lemma_members_nonnegative(self.toggles(), i);
            }
        }
    }
}

/// The first index that comes after `prev`: zero when there is no `prev`.
pub open spec fn after(prev: Option<BitmapIndex>) -> int {
    match prev {
        Some(p) => p@ + 1,
        None => 0,
    }
}

impl Clone for RawBitmap {
    fn clone(&self) -> (r: Self)
        ensures
            r.toggles() == self.toggles(),
            r@ == self@,
            r.wf(),
    {
        proof {
            use_type_invariant(self);
        }
        RawBitmap::from_toggles(duplicate(&self.toggles))
    }
}

} // verus!
