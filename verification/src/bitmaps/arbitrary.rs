//! Random bitmaps for property tests.
//!
//! A random bitmap is a random finite set of indices which, with even odds,
//! is extended to infinity from its last index. A bitmap shrinks by losing
//! its infinite tail first; the finite set of indices that is left then
//! shrinks as a list of numbers does.

use super::bitmap::{index_values, lemma_index_values_count, Bitmap};
use super::indices::{BitmapIndex, MAX_INDEX};
use super::model::{complement, is_greatest, naturals, upward};
use super::ranges::{Bound, IndexRange};
use quickcheck::Gen;
use vstd::prelude::*;
use vstd::set_lib::*;

verus! {

/// The source of randomness of `quickcheck`.
#[verifier::external_type_specification]
#[verifier::external_body]
pub struct ExGen(Gen);

/// Calls `Gen::size`, which returns the size that the generator was made
/// with. Nothing is claimed of the result.
#[verifier::external_body]
fn size_hint(g: &Gen) -> (size: usize) {
    g.size()
}

/// Calls `quickcheck`'s `Arbitrary::arbitrary` for `usize`, which draws a
/// number. Nothing is claimed of the result.
#[verifier::external_body]
fn draw_usize(g: &mut Gen) -> (draw: usize) {
    <usize as quickcheck::Arbitrary>::arbitrary(g)
}

/// Calls `quickcheck`'s `Arbitrary::arbitrary` for `u32`, which draws a
/// number. Nothing is claimed of the result.
#[verifier::external_body]
fn draw_u32(g: &mut Gen) -> (draw: u32) {
    <u32 as quickcheck::Arbitrary>::arbitrary(g)
}

/// Calls `quickcheck`'s `Arbitrary::arbitrary` for `bool`, which flips a
/// coin. Nothing is claimed of the result.
#[verifier::external_body]
fn draw_bool(g: &mut Gen) -> (draw: bool) {
    <bool as quickcheck::Arbitrary>::arbitrary(g)
}

/// The lists that `quickcheck` proposes in place of a list of numbers, in
/// the order in which it proposes them.
pub uninterp spec fn shrunk_lists_of(numbers: Seq<u32>) -> Seq<Seq<u32>>;

/// Calls `quickcheck`'s `Arbitrary::shrink` for `Vec<u32>` and collects the
/// lists that it proposes. The shrinker works on a copy of the list and
/// draws nothing at random, so its proposals depend on the list alone: they
/// are [`shrunk_lists_of`] the list. Nothing else is claimed of them.
#[verifier::external_body]
fn shrunk_lists(numbers: &Vec<u32>) -> (smaller: Vec<Vec<u32>>)
    ensures
        smaller.len() == shrunk_lists_of(numbers@).len(),
        forall|k: int|
            0 <= k < smaller.len() ==> (#[trigger] smaller[k])@ == shrunk_lists_of(numbers@)[k],
{
    quickcheck::Arbitrary::shrink(numbers).collect()
}

/// The value of the index that a drawn number stands for: the number itself
/// up to [`MAX_INDEX`], and the number less `MAX_INDEX + 1` above.
pub open spec fn draw_value(draw: u32) -> int {
    if draw > MAX_INDEX {
        draw - MAX_INDEX - 1
    } else {
        draw as int
    }
}

impl BitmapIndex {
    /// The index that a drawn number stands for: the number itself, reduced
    /// to the range of indices.
    pub fn from_draw(draw: u32) -> (r: BitmapIndex)
        ensures
            r@ == draw_value(draw),
            r.wf(),
    {
        let reduced = if draw > MAX_INDEX {
            draw - MAX_INDEX - 1
        } else {
            draw
        };
        match BitmapIndex::try_from_c_uint(reduced) {
            Ok(idx) => idx,
            Err(_) => BitmapIndex::min_value(),
        }
    }

    /// Draws a random index.
    pub fn arbitrary(g: &mut Gen) -> (r: BitmapIndex)
        ensures
            r.wf(),
    {
        BitmapIndex::from_draw(draw_u32(g))
    }

    /// The indices that a list of drawn numbers stands for, one for one.
    pub fn from_draws(draws: &Vec<u32>) -> (indices: Vec<BitmapIndex>)
        ensures
            indices.len() == draws.len(),
            forall|k: int|
                0 <= k < draws.len() ==> (#[trigger] indices[k])@ == draw_value(draws[k]),
    {
        let mut indices: Vec<BitmapIndex> = Vec::new();
        let mut k: usize = 0;
        while k < draws.len()
            invariant
                k <= draws.len(),
                indices.len() == k,
                forall|j: int|
                    0 <= j < k ==> (#[trigger] indices[j])@ == draw_value(draws[j]),
            decreases draws.len() - k,
        {
            indices.push(BitmapIndex::from_draw(draws[k]));
            k += 1;
        }
        indices
    }
}

/// The values of the indices that a list of drawn numbers stands for.
pub open spec fn drawn_values(draws: Seq<u32>) -> Set<int> {
    Set::new(|i: int| exists|k: int| 0 <= k < draws.len() && draw_value(#[trigger] draws[k]) == i)
}

/// Does `list` hold exactly the elements of `s`, in ascending order?
pub open spec fn lists_ascending(list: Seq<u32>, s: Set<int>) -> bool {
    &&& forall|j: int, k: int| 0 <= j < k < list.len() ==> list[j] < list[k]
    &&& forall|i: int| s.contains(i) <==> exists|k: int| 0 <= k < list.len() && #[trigger] list[k] == i
}

/// The elements of `s` in ascending order, for a finite set `s` of indices.
pub open spec fn ascending_list(s: Set<int>) -> Seq<u32> {
    choose|list: Seq<u32>| lists_ascending(list, s)
}

/// What is left of a set of indices without its infinite tail: the set
/// itself when it is finite, nothing when it is full, and else what it holds
/// below its greatest missing index.
pub open spec fn without_tail(s: Set<int>) -> Set<int> {
    if s.finite() {
        s
    } else if s == naturals() {
        Set::empty()
    } else {
        s.difference(upward(choose|t: int| is_greatest(complement(s), t)))
    }
}

/// Is `built` the set that the given indices stand for: the finite set of
/// the indices, extended to infinity from its greatest element (from zero,
/// if it is empty) when `extend` holds?
pub open spec fn built_from(indices: Seq<BitmapIndex>, extend: bool, built: Set<int>) -> bool {
    let finite = index_values(indices);
    &&& !extend ==> built == finite
    &&& extend && finite == Set::<int>::empty() ==> built == naturals()
    &&& extend ==> forall|m: int| is_greatest(finite, m) ==> built == finite.union(upward(m))
}

/// Is `built` a finite set that some indices stand for?
pub open spec fn finitely_built(built: Set<int>) -> bool {
    &&& built.finite()
    &&& exists|indices: Seq<BitmapIndex>| built_from(indices, false, built)
}

impl Bitmap {
    /// Builds the bitmap that a random draw stands for: the finite set of
    /// the given indices, extended to infinity from its last index (from
    /// zero, if it is empty) when `extend` holds.
    pub fn from_parts(indices: &[BitmapIndex], extend: bool) -> (r: Bitmap)
        ensures
            built_from(indices@, extend, r@),
    {
        let mut result = Bitmap::from_indices(indices);
        if extend {
            let ghost finite = result@;
            let last = match result.last_set() {
                Some(last) => last,
                None => BitmapIndex::min_value(),
            };
            let tail = IndexRange::new(Bound::Included(last), Bound::Unbounded);
            proof {
                assert(tail@ =~= upward(last@));
                if finite == Set::<int>::empty() {
                    assert(finite.union(upward(0)) =~= naturals());
                }
                assert forall|m: int| is_greatest(finite, m) implies m == last@ by {
                    if m < last@ {
                        assert(!finite.contains(last@));
                    } else if last@ < m {
                        assert(!finite.contains(m));
                    }
                }
            }
            result.set_range(tail);
        }
        result
    }

    /// Draws a random bitmap: some number of random indices, fewer than the
    /// size of the generator, and a coin flip that decides whether the set
    /// is extended to infinity.
    pub fn arbitrary(g: &mut Gen) -> (r: Bitmap)
        ensures
            exists|indices: Seq<BitmapIndex>, extend: bool| built_from(indices, extend, r@),
    {
        let size = size_hint(g);
        let count = if size == 0 {
            0
        } else {
            draw_usize(g) % size
        };
        let mut indices: Vec<BitmapIndex> = Vec::new();
        while indices.len() < count
            invariant
                indices.len() <= count,
            decreases count - indices.len(),
        {
            indices.push(BitmapIndex::arbitrary(g));
        }
        let extend = draw_bool(g);
        let r = Bitmap::from_parts(indices.as_slice(), extend);
        assert(built_from(indices@, extend, r@));
        r
    }

    /// The bitmap without its infinite tail: the bitmap itself when it is
    /// finite, and else what it holds below its last unset index.
    pub fn finite_part(&self) -> (r: Bitmap)
        ensures
            r@.finite(),
            r@ == without_tail(self@),
            self@.finite() ==> r@ == self@,
            self@ == naturals() ==> r@ == Set::<int>::empty(),
            forall|t: int|
                is_greatest(complement(self@), t) ==> r@ == self@.difference(upward(t)),
    {
        let mut local = self.clone();
        proof {
            use_type_invariant(self);
            self.lemma_members_are_indices();
        }
        if local.weight().is_none() {
            let cut = match self.last_unset() {
                Some(cut) => cut,
                None => BitmapIndex::min_value(),
            };
            let tail = IndexRange::new(Bound::Included(cut), Bound::Unbounded);
            proof {
                cut.lemma_in_range();
                assert(tail@ =~= upward(cut@));
                assert forall|t: int| is_greatest(complement(self@), t) implies t == cut@ by {
                    if t < cut@ {
                        assert(!complement(self@).contains(cut@));
                    } else if cut@ < t {
                        assert(!complement(self@).contains(t));
                    }
                }
                if self@ == naturals() {
                    assert(self@.difference(upward(cut@)) =~= Set::<int>::empty());
                }
                let below = set_int_range(0, cut@);
                lemma_int_range(0, cut@);
                assert(self@.difference(upward(cut@)).subset_of(below));
                lemma_len_subset(self@.difference(upward(cut@)), below);
            }
            local.unset_range(tail);
        } else {
            proof {
                assert forall|t: int| is_greatest(complement(self@), t) implies false by {
                    lemma_finite_is_bounded(self@, t);
                    let j = choose|j: int| j > t && j >= 0 && !self@.contains(j);
                    assert(complement(self@).contains(j));
                }
                if self@ == naturals() {
                    lemma_finite_is_bounded(self@, 0);
                    let j = choose|j: int| j > 0 && j >= 0 && !self@.contains(j);
                    assert(naturals().contains(j));
                }
            }
        }
        local
    }

    /// The set indices up to [`MAX_INDEX`], in ascending order.
    pub fn set_indices(&self) -> (indices: Vec<BitmapIndex>)
        ensures
            forall|k: int, l: int| 0 <= k < l < indices.len() ==> indices[k]@ < indices[l]@,
            forall|i: int|
                index_values(indices@).contains(i) <==> 0 <= i <= MAX_INDEX && self@.contains(i),
    {
        let mut iter = self.iter_set();
        let indices = iter.take(usize::MAX);
        proof {
            assert forall|k: int| 0 <= k < indices.len() implies k <= (#[trigger] indices[k])@ by {
                lemma_ascending_from(indices@, k);
            }
            if indices.len() > 0 {
                assert(indices[indices.len() - 1]@ <= MAX_INDEX);
            }
            use_type_invariant(self);
            self.lemma_members_are_indices();
            assert forall|i: int|
                index_values(indices@).contains(i) <==> 0 <= i <= MAX_INDEX && self@.contains(
                    i,
                ) by {
                if index_values(indices@).contains(i) {
                    let k = choose|k: int| 0 <= k < indices.len() && (#[trigger] indices[k])@ == i;
                }
                if 0 <= i <= MAX_INDEX && self@.contains(i) {
                    let k = choose|k: int| 0 <= k < indices.len() && (#[trigger] indices[k])@ == i;
                }
            }
        }
        indices
    }

    /// Proposes smaller bitmaps. The infinite tail is taken off first; the
    /// list of the indices that are left is then shrunk, and each proposal
    /// is made into a bitmap.
    pub fn shrink(&self) -> (smaller: Vec<Bitmap>)
        ensures
            smaller.len() == shrunk_lists_of(ascending_list(without_tail(self@))).len(),
            forall|k: int|
                0 <= k < smaller.len() ==> (#[trigger] smaller[k])@ == drawn_values(
                    shrunk_lists_of(ascending_list(without_tail(self@)))[k],
                ),
            forall|k: int|
                0 <= k < smaller.len() ==> {
                    &&& (#[trigger] smaller[k])@.finite()
                    &&& exists|indices: Seq<BitmapIndex>| built_from(indices, false, smaller[k]@)
                },
    {
        let numbers = self.shrink_seed();
        let lists = shrunk_lists(&numbers);
        let smaller = Bitmap::from_shrunk(&lists);
        proof {
            assert forall|k: int| 0 <= k < smaller.len() implies {
                &&& (#[trigger] smaller[k])@.finite()
                &&& exists|indices: Seq<BitmapIndex>| built_from(indices, false, smaller[k]@)
            } by {
                assert(finitely_built(smaller[k]@));
            }
        }
        smaller
    }

    /// The list of numbers that is handed to the shrinker: the indices of
    /// the bitmap without its infinite tail, in ascending order.
    pub fn shrink_seed(&self) -> (numbers: Vec<u32>)
        ensures
            numbers@ == ascending_list(without_tail(self@)),
            lists_ascending(numbers@, without_tail(self@)),
    {
        let local = self.finite_part();
        let indices = local.set_indices();
        let mut numbers: Vec<u32> = Vec::new();
        let mut k: usize = 0;
        while k < indices.len()
            invariant
                k <= indices.len(),
                numbers.len() == k,
                forall|j: int| 0 <= j < k ==> (#[trigger] numbers[j]) == indices[j]@,
            decreases indices.len() - k,
        {
            numbers.push(indices[k].into_c_uint());
            k += 1;
        }
        proof {
            use_type_invariant(&local);
            local.lemma_finite_members_are_indices();
            let rest = without_tail(self@);
            assert forall|i: int|
                rest.contains(i) <==> exists|k: int|
                    0 <= k < numbers@.len() && #[trigger] numbers@[k] == i by {
                if rest.contains(i) {
                    assert(index_values(indices@).contains(i));
                    let k = choose|k: int| 0 <= k < indices.len() && (#[trigger] indices[k])@ == i;
                    assert(numbers@[k] == i);
                }
                if exists|k: int| 0 <= k < numbers@.len() && #[trigger] numbers@[k] == i {
                    let k = choose|k: int| 0 <= k < numbers@.len() && #[trigger] numbers@[k] == i;
                    assert(indices[k]@ == i);
                    assert(index_values(indices@).contains(i));
                }
            }
            assert(lists_ascending(numbers@, rest));
            lemma_ascending_list_unique(numbers@, ascending_list(rest), rest);
        }
        numbers
    }

    /// Makes each list that the shrinker proposed into a bitmap: the finite
    /// bitmap of the indices that the numbers of the list stand for.
    pub fn from_shrunk(lists: &Vec<Vec<u32>>) -> (smaller: Vec<Bitmap>)
        ensures
            smaller.len() == lists.len(),
            forall|k: int|
                0 <= k < smaller.len() ==> (#[trigger] smaller[k])@ == drawn_values(lists[k]@),
            forall|k: int| 0 <= k < smaller.len() ==> finitely_built((#[trigger] smaller[k])@),
    {
        let mut smaller: Vec<Bitmap> = Vec::new();
        let mut n: usize = 0;
        while n < lists.len()
            invariant
                n <= lists.len(),
                smaller.len() == n,
                forall|k: int|
                    0 <= k < smaller.len() ==> (#[trigger] smaller[k])@ == drawn_values(
                        lists[k]@,
                    ),
                forall|k: int|
                    0 <= k < smaller.len() ==> finitely_built((#[trigger] smaller[k])@),
            decreases lists.len() - n,
        {
            let ghost before = smaller@;
            let bitmap = Bitmap::from_draws(&lists[n]);
            smaller.push(bitmap);
            proof {
                assert forall|k: int| 0 <= k < smaller.len() implies finitely_built(
                    (#[trigger] smaller[k])@,
                ) by {
                    if k < n {
                        assert(smaller[k] == before[k]);
                    }
                }
            }
            n += 1;
        }
        smaller
    }

    /// The finite bitmap of the indices that a list of drawn numbers stands
    /// for.
    pub fn from_draws(draws: &Vec<u32>) -> (r: Bitmap)
        ensures
            r@ == drawn_values(draws@),
            finitely_built(r@),
    {
        let list = BitmapIndex::from_draws(draws);
        let bitmap = Bitmap::from_parts(list.as_slice(), false);
        proof {
            lemma_index_values_count(list@);
            assert(built_from(list@, false, bitmap@));
            assert forall|i: int| index_values(list@).contains(i) == drawn_values(
                draws@,
            ).contains(i) by {
                if index_values(list@).contains(i) {
                    let k = choose|k: int| 0 <= k < list@.len() && (#[trigger] list@[k])@ == i;
                    assert(draw_value(draws@[k]) == i);
                }
                if drawn_values(draws@).contains(i) {
                    let k = choose|k: int|
                        0 <= k < draws@.len() && draw_value(#[trigger] draws@[k]) == i;
                    assert(list@[k]@ == i);
                }
            }
            assert(bitmap@ =~= drawn_values(draws@));
        }
        bitmap
    }
}

/// A set has at most one list of its elements in ascending order.
pub proof fn lemma_ascending_list_unique(a: Seq<u32>, b: Seq<u32>, s: Set<int>)
    requires
        lists_ascending(a, s),
        lists_ascending(b, s),
    ensures
        a == b,
    decreases a.len(),
{
    if a.len() == 0 {
        if b.len() > 0 {
            assert(b[0] == b[0] as int);
            assert(s.contains(b[0] as int));
        }
        assert(a =~= b);
    } else {
        let top = a.last();
        assert(a[a.len() - 1] == top as int);
        assert(s.contains(top as int));
        let kb = choose|k: int| 0 <= k < b.len() && #[trigger] b[k] == top as int;
        let other = b.last();
        assert(b[b.len() - 1] == other as int);
        assert(s.contains(other as int));
        let ka = choose|k: int| 0 <= k < a.len() && #[trigger] a[k] == other as int;
        assert(top == other);
        let rest = s.remove(top as int);
        lemma_ascending_list_without_top(a, s);
        lemma_ascending_list_without_top(b, s);
        lemma_ascending_list_unique(a.drop_last(), b.drop_last(), rest);
        assert(a =~= a.drop_last().push(top));
        assert(b =~= b.drop_last().push(top));
    }
}

/// Without its last element, an ascending list of a set is the ascending
/// list of the set without that element.
proof fn lemma_ascending_list_without_top(a: Seq<u32>, s: Set<int>)
    requires
        lists_ascending(a, s),
        a.len() > 0,
    ensures
        lists_ascending(a.drop_last(), s.remove(a.last() as int)),
{
    let top = a.last() as int;
    let before = a.drop_last();
    let rest = s.remove(top);
    assert forall|i: int|
        rest.contains(i) <==> exists|k: int| 0 <= k < before.len() && #[trigger] before[k] == i by {
        if rest.contains(i) {
            let k = choose|k: int| 0 <= k < a.len() && #[trigger] a[k] == i;
            assert(before[k] == i);
        }
        if exists|k: int| 0 <= k < before.len() && #[trigger] before[k] == i {
            let k = choose|k: int| 0 <= k < before.len() && #[trigger] before[k] == i;
            assert(a[k] == i);
            assert(a[k] < a[a.len() - 1]);
        }
    }
}

/// In a list of indices in ascending order, the index at place `k` is at
/// least `k`.
proof fn lemma_ascending_from(indices: Seq<BitmapIndex>, k: int)
    requires
        0 <= k < indices.len(),
        forall|i: int, j: int| 0 <= i < j < indices.len() ==> indices[i]@ < indices[j]@,
        forall|i: int| 0 <= i < indices.len() ==> 0 <= (#[trigger] indices[i])@,
    ensures
        k <= indices[k]@,
    decreases k,
{
    if k > 0 {
        lemma_ascending_from(indices, k - 1);
    }
}

/// A finite set of non-negative integers lacks some integer above any given
/// one.
proof fn lemma_finite_is_bounded(s: Set<int>, t: int)
    requires
        s.finite(),
    ensures
        exists|j: int| j > t && j >= 0 && !s.contains(j),
{
    let lo = if t < 0 {
        0
    } else {
        t + 1
    };
    let n = s.len() as int;
    let above = set_int_range(lo, lo + n + 1);
    lemma_int_range(lo, lo + n + 1);
    if above.subset_of(s) {
        lemma_len_subset(above, s);
    } else {
        let j = choose|j: int| above.contains(j) && !s.contains(j);
        assert(j > t && j >= 0 && !s.contains(j));
    }
}

} // verus!
