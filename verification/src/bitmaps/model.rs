//! The mathematical model behind a bitmap.
//!
//! A set is described by its *toggles*: the indices at which membership
//! changes when walking upward from zero. Index `i` belongs to the set when
//! an odd number of toggles lies at or below `i`. An odd number of toggles
//! therefore describes a set with an infinite tail.

use vstd::prelude::*;
use vstd::set_lib::*;

verus! {

/// One past the largest index: the highest point at which a toggle may lie.
pub const LIMIT: u32 = 0x8000_0000;

/// Does an odd number of the toggles `ts` lie at or below `i`?
pub open spec fn inside(ts: Seq<u32>, i: int) -> bool
    decreases ts.len(),
{
    if ts.len() == 0 {
        false
    } else {
        inside(ts.drop_last(), i) != (ts.last() <= i)
    }
}

/// The set of integers that the toggles `ts` describe.
pub open spec fn members(ts: Seq<u32>) -> Set<int> {
    Set::new(|i: int| inside(ts, i))
}

/// Every index: the non-negative integers.
pub open spec fn naturals() -> Set<int> {
    Set::new(|i: int| 0 <= i)
}

/// The integers from `lo` upward.
pub open spec fn upward(lo: int) -> Set<int> {
    Set::new(|i: int| lo <= i)
}

/// The non-negative integers that are not in `s`.
pub open spec fn complement(s: Set<int>) -> Set<int> {
    naturals().difference(s)
}

/// The integers that are in exactly one of `a` and `b`.
pub open spec fn symmetric_difference(a: Set<int>, b: Set<int>) -> Set<int> {
    Set::new(|i: int| a.contains(i) != b.contains(i))
}

/// Is `m` the smallest element of `s`?
pub open spec fn is_least(s: Set<int>, m: int) -> bool {
    &&& s.contains(m)
    &&& forall|j: int| j < m ==> !s.contains(j)
}

/// Is `m` the largest element of `s`?
pub open spec fn is_greatest(s: Set<int>, m: int) -> bool {
    &&& s.contains(m)
    &&& forall|j: int| j > m ==> !s.contains(j)
}

/// Toggles in their unique normal form: strictly increasing, none past
/// [`LIMIT`].
pub open spec fn canonical(ts: Seq<u32>) -> bool {
    &&& forall|j: int, k: int| 0 <= j < k < ts.len() ==> ts[j] < ts[k]
    &&& forall|j: int| 0 <= j < ts.len() ==> ts[j] <= LIMIT
}

/// Total length of the runs that an even number of toggles encloses.
pub open spec fn span(ts: Seq<u32>) -> int
    decreases ts.len(),
{
    if ts.len() < 2 {
        0
    } else {
        span(ts.take(ts.len() - 2)) + (ts[ts.len() - 1] - ts[ts.len() - 2])
    }
}

/// Appending a toggle flips membership from that toggle upward.
pub proof fn lemma_inside_push(ts: Seq<u32>, t: u32, i: int)
    ensures
        inside(ts.push(t), i) == (inside(ts, i) != (t <= i)),
{
    assert(ts.push(t).drop_last() =~= ts);
}

/// When exactly the first `k` toggles lie at or below `i`, membership of `i`
/// is the parity of `k`.
pub proof fn lemma_inside_rank(ts: Seq<u32>, k: int, i: int)
    requires
        0 <= k <= ts.len(),
        forall|j: int| 0 <= j < k ==> ts[j] <= i,
        forall|j: int| k <= j < ts.len() ==> ts[j] > i,
    ensures
        inside(ts, i) == (k % 2 == 1),
    decreases ts.len(),
{
    if ts.len() > 0 {
        if k == ts.len() {
            lemma_inside_rank(ts.drop_last(), k - 1, i);
        } else {
            lemma_inside_rank(ts.drop_last(), k, i);
        }
    }
}

/// Membership in a concatenation is the exclusive or of the memberships.
pub proof fn lemma_inside_concat(x: Seq<u32>, y: Seq<u32>, i: int)
    ensures
        inside(x + y, i) == (inside(x, i) != inside(y, i)),
    decreases y.len(),
{
    if y.len() == 0 {
        assert(x + y =~= x);
    } else {
        assert((x + y).drop_last() =~= x + y.drop_last());
        lemma_inside_concat(x, y.drop_last(), i);
    }
}

/// A prefix of canonical toggles is canonical.
pub proof fn lemma_canonical_take(ts: Seq<u32>, n: int)
    requires
        canonical(ts),
        0 <= n <= ts.len(),
    ensures
        canonical(ts.take(n)),
{
}

/// Canonical toggles describe a set of non-negative integers.
pub proof fn lemma_members_nonnegative(ts: Seq<u32>, i: int)
    requires
        i < 0,
    ensures
        !inside(ts, i),
{
    lemma_inside_rank(ts, 0, i);
}

/// An even number of canonical toggles describes a finite set, of as many
/// elements as the runs are long, all below the last toggle.
pub proof fn lemma_even_is_finite(ts: Seq<u32>)
    requires
        canonical(ts),
        ts.len() % 2 == 0,
    ensures
        members(ts).finite(),
        members(ts).len() == span(ts),
        forall|i: int| inside(ts, i) ==> ts.len() > 0 && 0 <= i < ts.last(),
    decreases ts.len(),
{
    if ts.len() == 0 {
        assert(members(ts) =~= Set::empty());
    } else {
        let n = ts.len() as int;
        let p = ts.take(n - 2);
        let lo = ts[n - 2];
        let hi = ts[n - 1];
        lemma_even_is_finite(p);
        assert(ts =~= p.push(lo).push(hi));
        let run = set_int_range(lo as int, hi as int);
        lemma_int_range(lo as int, hi as int);
        assert forall|i: int| inside(ts, i) == (inside(p, i) || (lo <= i < hi)) by {
            lemma_inside_push(p.push(lo), hi, i);
            lemma_inside_push(p, lo, i);
            if lo <= i {
                lemma_inside_rank(p, n - 2, i);
            }
        }
        assert(members(ts) =~= members(p) + run);
        assert(members(p).disjoint(run));
        lemma_set_disjoint_lens(members(p), run);
    }
}

/// An odd number of canonical toggles describes an infinite set: it holds
/// every integer from the last toggle upward.
pub proof fn lemma_odd_is_infinite(ts: Seq<u32>)
    requires
        canonical(ts),
        ts.len() % 2 == 1,
    ensures
        !members(ts).finite(),
        forall|i: int| i >= ts.last() ==> inside(ts, i),
{
    assert forall|i: int| i >= ts.last() implies inside(ts, i) by {
        lemma_inside_rank(ts, ts.len() as int, i);
    }
    if members(ts).finite() {
        let n = members(ts).len() as int;
        let lo = ts.last() as int;
        let tail = set_int_range(lo, lo + n + 1);
        lemma_int_range(lo, lo + n + 1);
        assert(tail.subset_of(members(ts)));
        lemma_len_subset(tail, members(ts));
    }
}

/// Canonical toggles describe a finite set exactly when their number is even.
pub proof fn lemma_finite_iff_even(ts: Seq<u32>)
    requires
        canonical(ts),
    ensures
        members(ts).finite() <==> ts.len() % 2 == 0,
{
    if ts.len() % 2 == 0 {
        lemma_even_is_finite(ts);
    } else {
        lemma_odd_is_infinite(ts);
    }
}

/// The toggles of a set are the points at which membership changes: `t` is
/// a toggle exactly when `t` and `t - 1` are not both in the set or both out
/// of it.
pub proof fn lemma_toggle_points(ts: Seq<u32>, t: int)
    requires
        canonical(ts),
    ensures
        (exists|k: int| 0 <= k < ts.len() && ts[k] == t) <==> inside(ts, t) != inside(ts, t - 1),
    decreases ts.len(),
{
    if ts.len() > 0 {
        let before = ts.drop_last();
        lemma_toggle_points(before, t);
        if ts.last() == t {
            assert(ts[ts.len() - 1] == t);
            if exists|k: int| 0 <= k < before.len() && before[k] == t {
                let k = choose|k: int| 0 <= k < before.len() && before[k] == t;
                assert(ts[k] < ts[ts.len() - 1]);
            }
        } else {
            if exists|k: int| 0 <= k < before.len() && before[k] == t {
                let k = choose|k: int| 0 <= k < before.len() && before[k] == t;
                assert(ts[k] == t);
            }
            if exists|k: int| 0 <= k < ts.len() && ts[k] == t {
                let k = choose|k: int| 0 <= k < ts.len() && ts[k] == t;
                assert(before[k] == t);
            }
        }
    }
}

/// Two canonical toggle lists that describe the same set are the same list.
pub proof fn lemma_canonical_unique(a: Seq<u32>, b: Seq<u32>)
    requires
        canonical(a),
        canonical(b),
        forall|i: int| inside(a, i) == inside(b, i),
    ensures
        a == b,
    decreases a.len() + b.len(),
{
    if a.len() == 0 && b.len() == 0 {
        assert(a =~= b);
    } else if b.len() == 0 || (a.len() > 0 && a.last() > b.last()) {
        lemma_last_toggle_shows(a, b);
    } else if a.len() == 0 || b.last() > a.last() {
        lemma_last_toggle_shows(b, a);
    } else {
        let t = a.last();
        assert forall|i: int| inside(a.drop_last(), i) == inside(b.drop_last(), i) by {
            assert(inside(a, i) == inside(b, i));
        }
        lemma_canonical_unique(a.drop_last(), b.drop_last());
        assert(a =~= a.drop_last().push(t));
        assert(b =~= b.drop_last().push(t));
    }
}

/// When the last toggle of `a` lies above every toggle of `b`, the two sets
/// differ at that toggle or just below it.
proof fn lemma_last_toggle_shows(a: Seq<u32>, b: Seq<u32>)
    requires
        canonical(a),
        canonical(b),
        a.len() > 0,
        b.len() == 0 || a.last() > b.last(),
    ensures
        exists|i: int| inside(a, i) != inside(b, i),
{
    let t = a.last() as int;
    lemma_inside_rank(a, a.len() as int, t);
    lemma_inside_rank(b, b.len() as int, t);
    lemma_inside_rank(a, a.len() - 1, t - 1);
    lemma_inside_rank(b, b.len() as int, t - 1);
    if inside(a, t) == inside(b, t) {
        assert(inside(a, t - 1) != inside(b, t - 1));
    }
}

} // verus!
