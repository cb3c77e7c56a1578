//! Iteration over the indices of a bitmap.
//!
//! An iterator walks upward through the indices that are set, or through
//! those that are unset. It looks up one index per step and never scans the
//! bitmap. Over an infinite direction it never runs out, so a caller must
//! limit the number of steps itself.

use super::bitmap::Bitmap;
use super::indices::{BitmapIndex, MAX_INDEX};
use super::raw::{after, RawBitmap};
use super::refs::{BitmapLike, BitmapRef};
use crate::sealed::Sealed;
use vstd::prelude::*;

verus! {

/// A place from which an iterator can read a bitmap: an owned bitmap, a
/// reference to one, or a view.
pub trait BitmapSource: View<V = Set<int>> + Sealed {
    /// The storage of the bitmap that is read.
    fn storage(&self) -> (raw: &RawBitmap)
        ensures
            raw@ == self@,
    ;
}

impl BitmapSource for Bitmap {
    fn storage(&self) -> (raw: &RawBitmap) {
        Bitmap::as_raw(self)
    }
}

impl<'a> Sealed for &'a Bitmap {

}

impl<'a> BitmapSource for &'a Bitmap {
    fn storage(&self) -> (raw: &RawBitmap) {
        Bitmap::as_raw(*self)
    }
}

impl<'target, Target: BitmapLike> Sealed for BitmapRef<'target, Target> {

}

impl<'target, Target: BitmapLike> BitmapSource for BitmapRef<'target, Target> {
    fn storage(&self) -> (raw: &RawBitmap) {
        self.as_raw()
    }
}

/// Iterator over set or unset [`Bitmap`] indices
pub struct BitmapIterator<B> {
    /// Bitmap over which we're iterating
    bitmap: B,
    /// Last explored index
    prev: Option<BitmapIndex>,
    /// Whether set indices are produced, or unset ones
    set: bool,
    /// Whether the iterator has run out
    done: bool,
}

impl<B: BitmapSource> BitmapIterator<B> {
    /// The set of indices of the bitmap that is walked.
    pub closed spec fn target(&self) -> Set<int> {
        self.bitmap@
    }

    /// Does the iterator produce the set indices, rather than the unset
    /// ones?
    pub closed spec fn produces_set(&self) -> bool {
        self.set
    }

    /// The lowest index that the iterator has not passed yet. It is one past
    /// [`MAX_INDEX`] once the iterator has run out.
    pub closed spec fn position(&self) -> int {
        if self.done {
            MAX_INDEX + 1
        } else {
            after(self.prev)
        }
    }

    /// Starts an iteration over the indices of `bitmap` that are set, if
    /// `set` holds, or unset, if it does not.
    pub fn new(bitmap: B, set: bool) -> (r: Self)
        ensures
            r.target() == bitmap@,
            r.produces_set() == set,
            r.position() == 0,
    {
        BitmapIterator { bitmap, prev: None, set, done: false }
    }

    /// Produces the next index: the lowest one, from the current position
    /// upward, that is set (or unset) in the bitmap. Once `None` has been
    /// returned, every later call returns `None` too.
    pub fn next(&mut self) -> (r: Option<BitmapIndex>)
        ensures
            final(self).target() == old(self).target(),
            final(self).produces_set() == old(self).produces_set(),
            old(self).position() <= final(self).position() <= MAX_INDEX + 1,
            match r {
                Some(m) => {
                    &&& old(self).position() <= m@ <= MAX_INDEX
                    &&& old(self).target().contains(m@) == old(self).produces_set()
                    &&& forall|j: int|
                        old(self).position() <= j < m@ ==> old(self).target().contains(j) != old(
                            self,
                        ).produces_set()
                    &&& final(self).position() == m@ + 1
                    &&& m.wf()
                },
                None => {
                    &&& forall|j: int|
                        old(self).position() <= j <= MAX_INDEX ==> old(self).target().contains(j)
                            != old(self).produces_set()
                    &&& final(self).position() == MAX_INDEX + 1
                },
            },
    {
        if self.done {
            return None;
        }
        match self.prev {
            Some(p) => {
                proof {
                    use_type_invariant(&p);
                    p.lemma_in_range();
                }
            },
            None => {},
        }
        let found = self.bitmap.storage().next(self.prev, self.set);
        match found {
            Some(m) => {
                self.prev = Some(m);
            },
            None => {
                self.done = true;
            },
        }
        found
    }

    /// Produces up to `limit` indices, in ascending order.
    pub fn take(&mut self, limit: usize) -> (taken: Vec<BitmapIndex>)
        ensures
            final(self).target() == old(self).target(),
            final(self).produces_set() == old(self).produces_set(),
            taken.len() <= limit,
            old(self).position() <= final(self).position() <= MAX_INDEX + 1,
            forall|k: int|
                0 <= k < taken.len() ==> {
                    &&& old(self).position() <= (#[trigger] taken[k])@ < final(self).position()
                    &&& old(self).target().contains(taken[k]@) == old(self).produces_set()
                },
            forall|k: int, l: int| 0 <= k < l < taken.len() ==> taken[k]@ < taken[l]@,
            forall|j: int|
                old(self).position() <= j < final(self).position() && old(self).target().contains(
                    j,
                ) == old(self).produces_set() ==> exists|k: int|
                    0 <= k < taken.len() && (#[trigger] taken[k])@ == j,
            taken.len() < limit ==> final(self).position() == MAX_INDEX + 1,
    {
        match self.prev {
            Some(p) => {
                proof {
                    use_type_invariant(&p);
                    p.lemma_in_range();
                }
            },
            None => {},
        }
        let mut taken: Vec<BitmapIndex> = Vec::new();
        while taken.len() < limit
            invariant
                self.target() == old(self).target(),
                self.produces_set() == old(self).produces_set(),
                old(self).position() <= self.position(),
                self.position() <= MAX_INDEX + 1,
                taken.len() <= limit,
                forall|k: int|
                    0 <= k < taken.len() ==> {
                        &&& old(self).position() <= (#[trigger] taken[k])@ < self.position()
                        &&& old(self).target().contains(taken[k]@) == old(self).produces_set()
                    },
                forall|k: int, l: int| 0 <= k < l < taken.len() ==> taken[k]@ < taken[l]@,
                forall|j: int|
                    old(self).position() <= j < self.position() && old(self).target().contains(j)
                        == old(self).produces_set() ==> exists|k: int|
                        0 <= k < taken.len() && (#[trigger] taken[k])@ == j,
            decreases limit - taken.len(),
        {
            let ghost before = taken@;
            let ghost from = self.position();
            match self.next() {
                Some(m) => {
                    taken.push(m);
                    proof {
                        assert forall|j: int|
                            old(self).position() <= j < self.position() && old(
                                self,
                            ).target().contains(j) == old(self).produces_set() implies exists|
                            k: int,
                        |
                            0 <= k < taken.len() && (#[trigger] taken[k])@ == j by {
                            if j < from {
                                let k = choose|k: int|
                                    0 <= k < before.len() && (#[trigger] before[k])@ == j;
                                assert(taken[k]@ == j);
                            } else {
                                assert(taken[before.len() as int]@ == j);
                            }
                        }
                    }
                },
                None => {
                    proof {
                        assert forall|j: int|
                            old(self).position() <= j < self.position() && old(
                                self,
                            ).target().contains(j) == old(self).produces_set() implies exists|
                            k: int,
                        |
                            0 <= k < taken.len() && (#[trigger] taken[k])@ == j by {
                            let k = choose|k: int|
                                0 <= k < before.len() && (#[trigger] before[k])@ == j;
                            assert(taken[k]@ == j);
                        }
                    }
                    return taken;
                },
            }
        }
        taken
    }
}

impl Bitmap {
    /// Iterate over set indices
    pub fn iter_set(&self) -> (r: BitmapIterator<&Bitmap>)
        ensures
            r.target() == self@,
            r.produces_set(),
            r.position() == 0,
    {
        BitmapIterator::new(self, true)
    }

    /// Iterate over unset indices
    pub fn iter_unset(&self) -> (r: BitmapIterator<&Bitmap>)
        ensures
            r.target() == self@,
            !r.produces_set(),
            r.position() == 0,
    {
        BitmapIterator::new(self, false)
    }

    /// Iterate over set indices, consuming the bitmap
    pub fn into_iter(self) -> (r: BitmapIterator<Bitmap>)
        ensures
            r.target() == self@,
            r.produces_set(),
            r.position() == 0,
    {
        BitmapIterator::new(self, true)
    }
}

} // verus!
