//! Laws of bitmaps.
//!
//! Each law relates operations of [`Bitmap`] to one another, over the sets
//! that the contracts of those operations speak of.

use super::bitmap::{index_values, lemma_index_values_count, Bitmap};
use super::indices::BitmapIndex;
use super::model::{
    canonical, complement, inside, lemma_canonical_unique, lemma_toggle_points, members, naturals,
    symmetric_difference,
};
use super::order::{lemma_order_total, lemma_precedes_asymmetric, lemma_precedes_transitive, precedes};
use super::ranges::IndexRange;
use super::render::list_text;
use vstd::prelude::*;
use vstd::set_lib::*;

verus! {

/// A bitmap built from a collection of indices holds exactly the indices of
/// the collection. It is finite, and when no index occurs twice in the
/// collection, its weight is the length of the collection.
pub proof fn law_built_from_indices(indices: Seq<BitmapIndex>, built: Bitmap)
    requires
        built@ == index_values(indices),
    ensures
        forall|i: int|
            built@.contains(i) <==> exists|k: int|
                0 <= k < indices.len() && (#[trigger] indices[k])@ == i,
        built@.finite(),
        built@.len() <= indices.len(),
        indices.no_duplicates() ==> built@.len() == indices.len(),
{
    lemma_index_values_count(indices);
}

/// Inverting a bitmap twice gives the bitmap back.
pub proof fn law_invert_is_involution(b: Bitmap)
    requires
        b.wf(),
    ensures
        complement(complement(b@)) == b@,
{
    b.lemma_members_are_indices();
    assert(complement(complement(b@)) =~= b@);
}

/// The complement of an intersection is the union of the complements, and
/// the complement of a union is the intersection of the complements.
pub proof fn law_de_morgan(a: Bitmap, b: Bitmap)
    requires
        a.wf(),
        b.wf(),
    ensures
        complement(a@.intersect(b@)) == complement(a@).union(complement(b@)),
        complement(a@.union(b@)) == complement(a@).intersect(complement(b@)),
{
    assert(complement(a@.intersect(b@)) =~= complement(a@).union(complement(b@)));
    assert(complement(a@.union(b@)) =~= complement(a@).intersect(complement(b@)));
}

/// Every bitmap includes the empty bitmap, and no bitmap intersects it.
pub proof fn law_empty_is_included_and_apart(a: Bitmap, empty: Bitmap)
    requires
        a.wf(),
        empty@ == Set::<int>::empty(),
    ensures
        empty@.subset_of(a@),
        a@.disjoint(empty@),
{
}

/// What is in the union of two bitmaps and not in their intersection is
/// their symmetric difference.
pub proof fn law_union_less_intersection(a: Bitmap, b: Bitmap)
    requires
        a.wf(),
        b.wf(),
    ensures
        a@.union(b@).difference(a@.intersect(b@)) == symmetric_difference(a@, b@),
{
    assert(a@.union(b@).difference(a@.intersect(b@)) =~= symmetric_difference(a@, b@));
}

/// Setting a range that has no end on either side leaves the bitmap full,
/// as `fill` does; clearing it leaves the bitmap empty, as `clear` does.
pub proof fn law_unbounded_range_is_everything(b: Bitmap, range: IndexRange)
    requires
        b.wf(),
        range.start is Unbounded,
        range.end is Unbounded,
    ensures
        range@ == naturals(),
        b@.union(range@) == naturals(),
        b@.difference(range@) == Set::<int>::empty(),
{
    b.lemma_members_are_indices();
    assert(range@ =~= naturals());
    assert(b@.union(range@) =~= naturals());
    assert(b@.difference(range@) =~= Set::<int>::empty());
}

/// A list of toggles in normal form that describes the set of a bitmap is
/// the list of toggles of the bitmap.
pub proof fn law_toggles_are_unique(b: Bitmap, toggles: Seq<u32>)
    requires
        b.wf(),
        canonical(toggles),
        members(toggles) == b@,
    ensures
        b.toggles() == toggles,
{
    b.lemma_toggles_describe();
    assert forall|i: int| inside(b.toggles(), i) == inside(toggles, i) by {
        assert(members(b.toggles()).contains(i) == members(toggles).contains(i));
    }
    lemma_canonical_unique(b.toggles(), toggles);
}

/// Two bitmaps that hold the same indices have the same toggles, and so the
/// same textual form.
pub proof fn law_text_follows_members(a: Bitmap, b: Bitmap)
    requires
        a.wf(),
        b.wf(),
        a@ == b@,
    ensures
        a.toggles() == b.toggles(),
        list_text(a.toggles()) == list_text(b.toggles()),
{
    a.lemma_toggles_describe();
    b.lemma_toggles_describe();
    assert forall|i: int| inside(a.toggles(), i) == inside(b.toggles(), i) by {
        assert(members(a.toggles()).contains(i) == members(b.toggles()).contains(i));
    }
    lemma_canonical_unique(a.toggles(), b.toggles());
}

/// A bitmap is empty exactly when its weight is zero.
pub proof fn law_empty_is_weightless(b: Bitmap)
    requires
        b.wf(),
    ensures
        b@ == Set::<int>::empty() <==> b@.finite() && b@.len() == 0,
{
    if b@.finite() && b@.len() == 0 {
        b@.lemma_len0_is_empty();
        assert(b@ =~= Set::<int>::empty());
    }
}

/// The toggles of a bitmap, from which its textual form is written, are the
/// indices at which membership changes: those that are set while the index
/// below is not, and those that are unset while the index below is set.
pub proof fn law_toggles_are_changes(b: Bitmap, t: int)
    requires
        b.wf(),
    ensures
        (exists|k: int| 0 <= k < b.toggles().len() && b.toggles()[k] == t) <==> (b@.contains(t)
            != b@.contains(t - 1)),
        forall|j: int, k: int| 0 <= j < k < b.toggles().len() ==> b.toggles()[j] < b.toggles()[k],
{
    b.lemma_toggles_describe();
    lemma_toggle_points(b.toggles(), t);
}

/// The order of bitmaps is a strict total order: of two bitmaps that differ,
/// exactly one comes before the other, and the order is transitive.
pub proof fn law_order_is_total(a: Bitmap, b: Bitmap, c: Bitmap)
    requires
        a.wf(),
        b.wf(),
        c.wf(),
    ensures
        a@ == b@ || precedes(a@, b@) || precedes(b@, a@),
        precedes(a@, b@) ==> a@ != b@ && !precedes(b@, a@),
        precedes(a@, b@) && precedes(b@, c@) ==> precedes(a@, c@),
{
    a.lemma_toggles_describe();
    b.lemma_toggles_describe();
    lemma_order_total(a.toggles(), b.toggles());
    if precedes(a@, b@) {
        lemma_precedes_asymmetric(a@, b@);
        if precedes(b@, c@) {
            lemma_precedes_transitive(a@, b@, c@);
        }
    }
}

} // verus!
