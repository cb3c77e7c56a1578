//! The order of bitmaps.
//!
//! Two sets are compared at the highest index at which they differ: the set
//! that holds that index is the greater. A set with an infinite tail is
//! greater than every finite set.

use super::model::{
    canonical, inside, lemma_finite_iff_even, lemma_inside_concat, lemma_inside_rank, members,
};
use vstd::prelude::*;

verus! {

/// Does the set `a` come strictly before the set `b`? It does when `b` is
/// infinite and `a` is not, or when both are of one kind and the highest
/// index at which they differ belongs to `b`.
pub open spec fn precedes(a: Set<int>, b: Set<int>) -> bool {
    ||| a.finite() && !b.finite()
    ||| a.finite() == b.finite() && exists|h: int| decides(a, b, h)
}

/// Is `h` the highest index at which `a` and `b` differ, and a member of
/// `b`?
pub open spec fn decides(a: Set<int>, b: Set<int>, h: int) -> bool {
    &&& b.contains(h)
    &&& !a.contains(h)
    &&& forall|j: int| j > h ==> a.contains(j) == b.contains(j)
}

/// A set that comes before another differs from it, and does not come after
/// it.
pub proof fn lemma_precedes_asymmetric(a: Set<int>, b: Set<int>)
    requires
        precedes(a, b),
    ensures
        a != b,
        !precedes(b, a),
{
    if a.finite() == b.finite() {
        let h = choose|h: int| decides(a, b, h);
        assert(a.contains(h) != b.contains(h));
        if precedes(b, a) {
            let g = choose|g: int| decides(b, a, g);
            if g < h {
                assert(b.contains(h) == a.contains(h));
            } else if h < g {
                assert(a.contains(g) == b.contains(g));
            }
        }
    }
}

/// If `a` comes before `b` and `b` comes before `c`, then `a` comes before
/// `c`.
pub proof fn lemma_precedes_transitive(a: Set<int>, b: Set<int>, c: Set<int>)
    requires
        precedes(a, b),
        precedes(b, c),
    ensures
        precedes(a, c),
{
    if a.finite() == b.finite() && b.finite() == c.finite() {
        let g = choose|g: int| decides(a, b, g);
        let h = choose|h: int| decides(b, c, h);
        if g > h {
            assert(b.contains(g) == c.contains(g));
            assert(decides(a, c, g));
        } else if h > g {
            assert(a.contains(h) == b.contains(h));
            assert(decides(a, c, h));
        }
    }
}

/// Any two sets that canonical toggles describe can be compared: they are
/// the same set, or one of them comes before the other.
pub proof fn lemma_order_total(a: Seq<u32>, b: Seq<u32>)
    requires
        canonical(a),
        canonical(b),
    ensures
        a == b || precedes(members(a), members(b)) || precedes(members(b), members(a)),
{
    if a.len() % 2 != b.len() % 2 {
        lemma_finite_iff_even(a);
        lemma_finite_iff_even(b);
    } else {
        assert(a.skip(a.len() as int) =~= b.skip(b.len() as int));
        lemma_shared_toggles(a, b, a.len() as int, b.len() as int);
    }
}

/// Walks down the toggles that two lists share at their upper ends, to the
/// highest toggle that only one of them has.
proof fn lemma_shared_toggles(a: Seq<u32>, b: Seq<u32>, ka: int, kb: int)
    requires
        canonical(a),
        canonical(b),
        0 <= ka <= a.len(),
        0 <= kb <= b.len(),
        ka % 2 == kb % 2,
        a.skip(ka) == b.skip(kb),
    ensures
        a == b || precedes(members(a), members(b)) || precedes(members(b), members(a)),
    decreases ka,
{
    if ka == 0 && kb == 0 {
        assert(a =~= a.skip(0));
        assert(b =~= b.skip(0));
    } else if ka > 0 && kb > 0 && a[ka - 1] == b[kb - 1] {
        assert(a.skip(ka - 1) =~= seq![a[ka - 1]] + a.skip(ka));
        assert(b.skip(kb - 1) =~= seq![b[kb - 1]] + b.skip(kb));
        lemma_shared_toggles(a, b, ka - 1, kb - 1);
    } else if kb == 0 || (ka > 0 && a[ka - 1] > b[kb - 1]) {
        lemma_higher_toggle_decides(a, b, ka, kb);
    } else {
        lemma_higher_toggle_decides(b, a, kb, ka);
    }
}

/// Where the remaining toggles of `a` end higher than those of `b`, and the
/// toggles above them are shared, the index just below the last remaining
/// toggle of `a` decides the order.
proof fn lemma_higher_toggle_decides(a: Seq<u32>, b: Seq<u32>, ka: int, kb: int)
    requires
        canonical(a),
        canonical(b),
        0 < ka <= a.len(),
        0 <= kb <= b.len(),
        ka % 2 == kb % 2,
        a.skip(ka) == b.skip(kb),
        kb == 0 || a[ka - 1] > b[kb - 1],
    ensures
        ka % 2 == 1 ==> precedes(members(a), members(b)),
        ka % 2 == 0 ==> precedes(members(b), members(a)),
{
    let h = a[ka - 1] - 1;
    let rest = a.skip(ka);
    assert(a =~= a.take(ka) + rest);
    assert(b =~= b.take(kb) + rest);
    assert(a.len() - ka == b.len() - kb) by {
        assert(a.skip(ka).len() == b.skip(kb).len());
    }
    lemma_finite_iff_even(a);
    lemma_finite_iff_even(b);
    assert forall|j: int| j > h implies inside(a, j) == inside(b, j) by {
        lemma_inside_concat(a.take(ka), rest, j);
        lemma_inside_concat(b.take(kb), rest, j);
        lemma_inside_rank(a.take(ka), ka, j);
        lemma_inside_rank(b.take(kb), kb, j);
    }
    lemma_inside_concat(a.take(ka), rest, h);
    lemma_inside_concat(b.take(kb), rest, h);
    lemma_inside_rank(a.take(ka), ka - 1, h);
    lemma_inside_rank(b.take(kb), kb, h);
    assert forall|j: int| 0 <= j < rest.len() implies rest[j] > h by {
        assert(rest[j] == a[ka + j]);
    }
    lemma_inside_rank(rest, 0, h);
    if ka % 2 == 1 {
        assert(decides(members(a), members(b), h));
    } else {
        assert(decides(members(b), members(a), h));
    }
}

/// Compares the sets that two toggle lists describe: -1 when the first comes
/// before the second, 1 when it comes after, 0 when they are the same set.
pub(crate) fn compare(a: &Vec<u32>, b: &Vec<u32>) -> (r: i8)
    requires
        canonical(a@),
        canonical(b@),
    ensures
        r == -1 || r == 0 || r == 1,
        r == -1 <==> precedes(members(a@), members(b@)),
        r == 0 <==> a@ == b@,
        r == 1 <==> precedes(members(b@), members(a@)),
{
    let r = compare_walk(a, b);
    proof {
        if precedes(members(a@), members(b@)) {
            lemma_precedes_asymmetric(members(a@), members(b@));
        }
        if precedes(members(b@), members(a@)) {
            lemma_precedes_asymmetric(members(b@), members(a@));
        }
    }
    r
}

/// Walks both toggle lists down from their ends to the highest toggle that
/// they do not share.
fn compare_walk(a: &Vec<u32>, b: &Vec<u32>) -> (r: i8)
    requires
        canonical(a@),
        canonical(b@),
    ensures
        r == -1 || r == 0 || r == 1,
        r == -1 ==> precedes(members(a@), members(b@)),
        r == 0 ==> a@ == b@,
        r == 1 ==> precedes(members(b@), members(a@)),
{
    let mut ka: usize = a.len();
    let mut kb: usize = b.len();
    if ka % 2 != kb % 2 {
        proof {
            lemma_finite_iff_even(a@);
            lemma_finite_iff_even(b@);
        }
        return if ka % 2 == 1 {
            1
        } else {
            -1
        };
    }
    while ka > 0 && kb > 0 && a[ka - 1] == b[kb - 1]
        invariant
            ka <= a.len(),
            kb <= b.len(),
            ka % 2 == kb % 2,
            a@.skip(ka as int) == b@.skip(kb as int),
        decreases ka,
    {
        proof {
            assert(a@.skip(ka - 1) =~= seq![a@[ka - 1]] + a@.skip(ka as int));
            assert(b@.skip(kb - 1) =~= seq![b@[kb - 1]] + b@.skip(kb as int));
        }
        ka -= 1;
        kb -= 1;
    }
    if ka == 0 && kb == 0 {
        proof {
            assert(a@ =~= a@.skip(0));
            assert(b@ =~= b@.skip(0));
        }
        return 0;
    }
    let above_is_set = ka % 2 == 1;
    if kb == 0 || (ka > 0 && a[ka - 1] > b[kb - 1]) {
        proof {
            lemma_higher_toggle_decides(a@, b@, ka as int, kb as int);
        }
        if above_is_set {
            -1
        } else {
            1
        }
    } else {
        proof {
            lemma_higher_toggle_decides(b@, a@, kb as int, ka as int);
        }
        if above_is_set {
            1
        } else {
            -1
        }
    }
}

} // verus!
