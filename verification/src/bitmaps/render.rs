//! The textual form of a bitmap.
//!
//! A bitmap is written as its runs in ascending order, separated by commas:
//! `N` for a single index, `N-M` for the indices from `N` to `M`, and `N-`
//! for every index from `N` upward. The empty set is the empty string.

use super::model::canonical;
use vstd::prelude::*;
use vstd::string::*;

verus! {

/// The character for a decimal digit.
pub open spec fn digit_char(d: int) -> char {
    if d == 0 {
        '0'
    } else if d == 1 {
        '1'
    } else if d == 2 {
        '2'
    } else if d == 3 {
        '3'
    } else if d == 4 {
        '4'
    } else if d == 5 {
        '5'
    } else if d == 6 {
        '6'
    } else if d == 7 {
        '7'
    } else if d == 8 {
        '8'
    } else {
        '9'
    }
}

/// A natural number in decimal, without leading zeros.
pub open spec fn decimal(n: int) -> Seq<char>
    decreases n,
{
    if n < 10 {
        seq![digit_char(n)]
    } else {
        decimal(n / 10).push(digit_char(n % 10))
    }
}

/// The run of the indices from `lo` to `hi`, both included.
pub open spec fn run_text(lo: int, hi: int) -> Seq<char> {
    if lo == hi {
        decimal(lo)
    } else {
        decimal(lo) + seq!['-'] + decimal(hi)
    }
}

/// The run of every index from `lo` upward.
pub open spec fn tail_text(lo: int) -> Seq<char> {
    decimal(lo).push('-')
}

/// The text of `tokens` runs, followed by a comma unless there is no run.
pub open spec fn then_comma(text: Seq<char>, tokens: nat) -> Seq<char> {
    if tokens == 0 {
        text
    } else {
        text.push(',')
    }
}

/// The list of the runs that the toggles `ts` enclose. Toggles pair up into
/// runs from the front; a last toggle without a partner opens the infinite
/// tail.
pub open spec fn list_text(ts: Seq<u32>) -> Seq<char>
    decreases ts.len(),
{
    if ts.len() == 0 {
        Seq::empty()
    } else if ts.len() % 2 == 1 {
        let before = ts.drop_last();
        then_comma(list_text(before), before.len()) + tail_text(ts.last() as int)
    } else {
        let before = ts.take(ts.len() - 2);
        then_comma(list_text(before), before.len()) + run_text(
            ts[ts.len() - 2] as int,
            ts[ts.len() - 1] - 1,
        )
    }
}

/// Appends one decimal digit.
fn push_digit(text: &mut String, d: u32)
    requires
        d < 10,
    ensures
        final(text)@ == old(text)@.push(digit_char(d as int)),
{
    proof {
        reveal_strlit("0");
        reveal_strlit("1");
        reveal_strlit("2");
        reveal_strlit("3");
        reveal_strlit("4");
        reveal_strlit("5");
        reveal_strlit("6");
        reveal_strlit("7");
        reveal_strlit("8");
        reveal_strlit("9");
    }
    let ghost before = text@;
    let digit: &str = if d == 0 {
        "0"
    } else if d == 1 {
        "1"
    } else if d == 2 {
        "2"
    } else if d == 3 {
        "3"
    } else if d == 4 {
        "4"
    } else if d == 5 {
        "5"
    } else if d == 6 {
        "6"
    } else if d == 7 {
        "7"
    } else if d == 8 {
        "8"
    } else {
        "9"
    };
    assert(digit@ =~= seq![digit_char(d as int)]);
    text.append(digit);
    assert(text@ =~= before.push(digit_char(d as int)));
}

/// Appends a number in decimal.
fn push_decimal(text: &mut String, n: u32)
    ensures
        final(text)@ == old(text)@ + decimal(n as int),
    decreases n,
{
    let ghost before = text@;
    if n >= 10 {
        push_decimal(text, n / 10);
    }
    push_digit(text, n % 10);
    assert(text@ =~= before + decimal(n as int));
}

/// Appends a comma, if `comma` holds, or else a dash.
fn push_mark(text: &mut String, comma: bool)
    ensures
        final(text)@ == old(text)@.push(
            if comma {
                ','
            } else {
                '-'
            },
        ),
{
    proof {
        reveal_strlit(",");
        reveal_strlit("-");
    }
    let ghost before = text@;
    if comma {
        text.append(",");
        assert(text@ =~= before.push(','));
    } else {
        text.append("-");
        assert(text@ =~= before.push('-'));
    }
}

/// Writes the list of the runs that the toggles `ts` enclose.
pub(crate) fn render(ts: &Vec<u32>) -> (text: String)
    requires
        canonical(ts@),
    ensures
        text@ == list_text(ts@),
{
    let mut text = String::new();
    let mut k: usize = 0;
    while k + 1 < ts.len()
        invariant
            canonical(ts@),
            k % 2 == 0,
            k <= ts.len(),
            text@ == list_text(ts@.take(k as int)),
        decreases ts.len() - k,
    {
        let ghost before = text@;
        let ghost next = ts@.take(k + 2);
        if k > 0 {
            push_mark(&mut text, true);
        }
        let lo = ts[k];
        let hi = ts[k + 1] - 1;
        push_decimal(&mut text, lo);
        if hi != lo {
            push_mark(&mut text, false);
            push_decimal(&mut text, hi);
        }
        proof {
            assert(next.take(next.len() - 2) =~= ts@.take(k as int));
            assert(text@ =~= then_comma(before, k as nat) + run_text(lo as int, hi as int));
        }
        k += 2;
    }
    if k < ts.len() {
        let ghost before = text@;
        if k > 0 {
            push_mark(&mut text, true);
        }
        push_decimal(&mut text, ts[k]);
        push_mark(&mut text, false);
        proof {
            assert(ts@.drop_last() =~= ts@.take(k as int));
            assert(text@ =~= then_comma(before, k as nat) + tail_text(ts[k as int] as int));
        }
    } else {
        assert(ts@.take(k as int) =~= ts@);
    }
    text
}

} // verus!
