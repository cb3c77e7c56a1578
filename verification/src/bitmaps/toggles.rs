//! Algorithms on canonical toggle lists.
//!
//! Every bitmap operation comes down to one of the few walks over toggle
//! lists in this module: a binary search, a merge, a sum of run lengths.

use super::indices::MAX_INDEX;
use super::model::{
    canonical, inside, lemma_even_is_finite, lemma_inside_push, lemma_inside_rank,
    lemma_odd_is_infinite, members, span,
};
use vstd::prelude::*;

verus! {

/// A pointwise combination of two sets.
#[derive(Clone, Copy, Debug, PartialEq, Eq, Structural)]
pub enum SetOp {
    /// Indices in both sets
    And,
    /// Indices in either set
    Or,
    /// Indices in exactly one of the sets
    Xor,
    /// Indices in the first set but not in the second
    AndNot,
}

impl SetOp {
    /// Membership in the combination, from membership in each operand.
    pub open spec fn apply(self, x: bool, y: bool) -> bool {
        match self {
            SetOp::And => x && y,
            SetOp::Or => x || y,
            SetOp::Xor => x != y,
            SetOp::AndNot => x && !y,
        }
    }

    /// Computes [`SetOp::apply`].
    pub fn eval(self, x: bool, y: bool) -> (r: bool)
        ensures
            r == self.apply(x, y),
    {
        match self {
            SetOp::And => x && y,
            SetOp::Or => x || y,
            SetOp::Xor => x != y,
            SetOp::AndNot => x && !y,
        }
    }
}

/// Counts the toggles at or below `i`, by binary search. The parity of the
/// count tells whether `i` is a member.
pub(crate) fn rank(ts: &Vec<u32>, i: u32) -> (k: usize)
    requires
        canonical(ts@),
    ensures
        k <= ts.len(),
        forall|j: int| 0 <= j < k ==> ts[j] <= i,
        forall|j: int| k <= j < ts.len() ==> ts[j] > i,
        inside(ts@, i as int) == (k % 2 == 1),
{
    let mut lo: usize = 0;
    let mut hi: usize = ts.len();
    while lo < hi
        invariant
            lo <= hi <= ts.len(),
            canonical(ts@),
            forall|j: int| 0 <= j < lo ==> ts[j] <= i,
            forall|j: int| hi <= j < ts.len() ==> ts[j] > i,
        decreases hi - lo,
    {
        let mid: usize = lo + (hi - lo) / 2;
        if ts[mid] <= i {
            lo = mid + 1;
        } else {
            hi = mid;
        }
    }
    proof {
        lemma_inside_rank(ts@, lo as int, i as int);
    }
    lo
}

/// Merges two toggle lists into the toggles of their pointwise combination.
pub(crate) fn combine(a: &Vec<u32>, b: &Vec<u32>, op: SetOp) -> (out: Vec<u32>)
    requires
        canonical(a@),
        canonical(b@),
    ensures
        canonical(out@),
        forall|i: int| inside(out@, i) == op.apply(inside(a@, i), inside(b@, i)),
{
    let mut out: Vec<u32> = Vec::new();
    let mut ia: usize = 0;
    let mut ib: usize = 0;
    let mut in_a = false;
    let mut in_b = false;
    let mut in_out = false;
    while ia < a.len() || ib < b.len()
        invariant
            canonical(a@),
            canonical(b@),
            canonical(out@),
            ia <= a.len(),
            ib <= b.len(),
            in_a == (ia % 2 == 1),
            in_b == (ib % 2 == 1),
            in_out == (out.len() % 2 == 1),
            in_out == op.apply(in_a, in_b),
            forall|j: int| 0 <= j < ia && ib < b.len() ==> a[j] < b[ib as int],
            forall|j: int| 0 <= j < ib && ia < a.len() ==> b[j] < a[ia as int],
            forall|j: int| 0 <= j < out.len() && ia < a.len() ==> out[j] < a[ia as int],
            forall|j: int| 0 <= j < out.len() && ib < b.len() ==> out[j] < b[ib as int],
            forall|i: int|
                inside(out@, i) == op.apply(
                    inside(a@.take(ia as int), i),
                    inside(b@.take(ib as int), i),
                ),
        decreases (a.len() - ia) + (b.len() - ib),
    {
        let ghost old_out = out@;
        let ghost old_ia = ia as int;
        let ghost old_ib = ib as int;
        let x: u32 = if ib >= b.len() || (ia < a.len() && a[ia] <= b[ib]) {
            a[ia]
        } else {
            b[ib]
        };
        if ia < a.len() && a[ia] == x {
            ia += 1;
            in_a = !in_a;
        }
        if ib < b.len() && b[ib] == x {
            ib += 1;
            in_b = !in_b;
        }
        let now = op.eval(in_a, in_b);
        if now != in_out {
            out.push(x);
            in_out = now;
        }
        proof {
            let pa = a@.take(ia as int);
            let pb = b@.take(ib as int);
            assert forall|i: int|
                inside(out@, i) == op.apply(inside(pa, i), inside(pb, i)) by {
                if ia > old_ia {
                    assert(pa =~= a@.take(old_ia).push(x));
                    lemma_inside_push(a@.take(old_ia), x, i);
                }
                if ib > old_ib {
                    assert(pb =~= b@.take(old_ib).push(x));
                    lemma_inside_push(b@.take(old_ib), x, i);
                }
                if out@.len() > old_out.len() {
                    assert(out@ =~= old_out.push(x));
                    lemma_inside_push(old_out, x, i);
                }
                if x <= i {
                    lemma_inside_rank(pa, ia as int, i);
                    lemma_inside_rank(pb, ib as int, i);
                    lemma_inside_rank(out@, out@.len() as int, i);
                }
            }
        }
    }
    proof {
        assert(a@.take(ia as int) =~= a@);
        assert(b@.take(ib as int) =~= b@);
    }
    out
}

/// Are the two toggle lists the same list?
pub(crate) fn same(a: &Vec<u32>, b: &Vec<u32>) -> (r: bool)
    ensures
        r == (a@ == b@),
{
    if a.len() != b.len() {
        return false;
    }
    let mut k: usize = 0;
    while k < a.len()
        invariant
            k <= a.len(),
            a.len() == b.len(),
            forall|j: int| 0 <= j < k ==> a[j] == b[j],
        decreases a.len() - k,
    {
        if a[k] != b[k] {
            return false;
        }
        k += 1;
    }
    assert(a@ =~= b@);
    true
}

/// Copies a toggle list.
pub(crate) fn duplicate(ts: &Vec<u32>) -> (out: Vec<u32>)
    ensures
        out@ == ts@,
{
    let mut out: Vec<u32> = Vec::new();
    let mut k: usize = 0;
    while k < ts.len()
        invariant
            k <= ts.len(),
            out@ == ts@.take(k as int),
        decreases ts.len() - k,
    {
        out.push(ts[k]);
        k += 1;
        assert(out@ =~= ts@.take(k as int));
    }
    assert(out@ =~= ts@);
    out
}

/// Counts the members: the total length of the runs, or `None` when the set
/// has an infinite tail.
pub(crate) fn weight(ts: &Vec<u32>) -> (w: Option<usize>)
    requires
        canonical(ts@),
    ensures
        match w {
            Some(n) => members(ts@).finite() && members(ts@).len() == n,
            None => !members(ts@).finite(),
        },
{
    if ts.len() % 2 == 1 {
        proof {
            lemma_odd_is_infinite(ts@);
        }
        return None;
    }
    let mut total: usize = 0;
    let mut k: usize = 0;
    while k < ts.len()
        invariant
            canonical(ts@),
            ts.len() % 2 == 0,
            k % 2 == 0,
            k <= ts.len(),
            total == span(ts@.take(k as int)),
            k == 0 ==> total == 0,
            k > 0 ==> total <= ts[k - 1],
        decreases ts.len() - k,
    {
        proof {
            let next = ts@.take(k + 2);
            assert(next.take(next.len() - 2) =~= ts@.take(k as int));
        }
        total = total + (ts[k + 1] - ts[k]) as usize;
        k += 2;
    }
    proof {
        assert(ts@.take(k as int) =~= ts@);
        lemma_even_is_finite(ts@);
    }
    Some(total)
}

/// Finds the lowest index from `start` upward, within the index range, whose
/// membership is `want`.
pub(crate) fn next(ts: &Vec<u32>, start: u32, want: bool) -> (r: Option<u32>)
    requires
        canonical(ts@),
        start <= MAX_INDEX,
    ensures
        match r {
            Some(m) => {
                &&& start <= m <= MAX_INDEX
                &&& inside(ts@, m as int) == want
                &&& forall|j: int| start <= j < m ==> inside(ts@, j) != want
            },
            None => forall|j: int| start <= j <= MAX_INDEX ==> inside(ts@, j) != want,
        },
{
    let k = rank(ts, start);
    if (k % 2 == 1) == want {
        return Some(start);
    }
    if k < ts.len() && ts[k] <= MAX_INDEX {
        let m = ts[k];
        proof {
            lemma_inside_rank(ts@, k + 1, m as int);
            assert forall|j: int| start <= j < m implies inside(ts@, j) != want by {
                lemma_inside_rank(ts@, k as int, j);
            }
        }
        Some(m)
    } else {
        proof {
            assert forall|j: int| start <= j <= MAX_INDEX implies inside(ts@, j) != want by {
                lemma_inside_rank(ts@, k as int, j);
            }
        }
        None
    }
}

/// Finds the highest index whose membership is `want`, when there is one:
/// when the indices above it all have the other membership.
pub(crate) fn last(ts: &Vec<u32>, want: bool) -> (r: Option<u32>)
    requires
        canonical(ts@),
    ensures
        match r {
            Some(m) => {
                &&& m <= MAX_INDEX
                &&& inside(ts@, m as int) == want
                &&& forall|j: int| j > m ==> inside(ts@, j) != want
            },
            None => {
                ||| (ts.len() % 2 == 1) == want
                ||| forall|j: int| j >= 0 ==> inside(ts@, j) != want
            },
        },
{
    let n = ts.len();
    if (n % 2 == 1) == want {
        return None;
    }
    if n == 0 || ts[n - 1] == 0 {
        proof {
            assert forall|j: int| j >= 0 implies inside(ts@, j) != want by {
                lemma_inside_rank(ts@, n as int, j);
            }
        }
        return None;
    }
    let m = ts[n - 1] - 1;
    proof {
        lemma_inside_rank(ts@, n - 1, m as int);
        assert forall|j: int| j > m implies inside(ts@, j) != want by {
            lemma_inside_rank(ts@, n as int, j);
        }
    }
    Some(m)
}

} // verus!
