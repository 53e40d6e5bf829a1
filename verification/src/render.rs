//! Rendering of results for presentation: the sentinel becomes the
//! distinguishable token `OVERFLOW`, every other value its literal decimal
//! representation.

use vstd::prelude::*;
use crate::collatz::OVERFLOW_SENTINEL;

verus! {

/// The character for one decimal digit.
pub open spec fn digit_char(d: nat) -> char {
    if d == 0 {
        '0'
    } else if d == 1 {
        '1'
    } else if d == 2 {
        '2'
    } else if d == 3 {
        '3'
    } else if d == 4 {
        '4'
    } else if d == 5 {
        '5'
    } else if d == 6 {
        '6'
    } else if d == 7 {
        '7'
    } else if d == 8 {
        '8'
    } else {
        '9'
    }
}

/// The decimal representation of `n`: most significant digit first, no
/// leading zeroes except for the single digit of zero itself.
pub open spec fn dec_digits(n: nat) -> Seq<char>
    decreases n,
{
    if n < 10 {
        seq![digit_char(n)]
    } else {
        dec_digits(n / 10) + seq![digit_char(n % 10)]
    }
}

/// How one result entry is presented: the overflow token for the sentinel,
/// the decimal representation otherwise.
pub open spec fn rendered_value(v: u32) -> Seq<char> {
    if v == OVERFLOW_SENTINEL {
        "OVERFLOW"@
    } else {
        dec_digits(v as nat)
    }
}

/// The one-character string of a single decimal digit.
fn digit_str(d: u32) -> (s: &'static str)
    requires
        d < 10,
    ensures
        s@ == seq![digit_char(d as nat)],
{
    proof {
        reveal_strlit("0");
        reveal_strlit("1");
        reveal_strlit("2");
        reveal_strlit("3");
        reveal_strlit("4");
        reveal_strlit("5");
        reveal_strlit("6");
        reveal_strlit("7");
        reveal_strlit("8");
        reveal_strlit("9");
    }
    let s: &'static str = if d == 0 {
        "0"
    } else if d == 1 {
        "1"
    } else if d == 2 {
        "2"
    } else if d == 3 {
        "3"
    } else if d == 4 {
        "4"
    } else if d == 5 {
        "5"
    } else if d == 6 {
        "6"
    } else if d == 7 {
        "7"
    } else if d == 8 {
        "8"
    } else {
        "9"
    };
    proof {
        assert(s@ =~= seq![digit_char(d as nat)]);
    }
    s
}

/// The decimal representation of `v`, most significant digit first.
fn render_decimal(v: u32) -> (s: String)
    ensures
        s@ == dec_digits(v as nat),
    decreases v,
{
    let low = digit_str(v % 10);
    if v < 10 {
        String::from_str(low)
    } else {
        let rest = render_decimal(v / 10);
        let s = rest.concat(low);
        proof {
            assert(s@ =~= dec_digits(v as nat));
        }
        s
    }
}

/// Present one result entry: the token `OVERFLOW` for the sentinel, the
/// literal decimal representation for every legitimate step count.
pub fn render_value(v: u32) -> (s: String)
    ensures
        s@ == rendered_value(v),
{
    if v == OVERFLOW_SENTINEL {
        String::from_str("OVERFLOW")
    } else {
        render_decimal(v)
    }
}

/// The rendered entries joined by a comma and a space.
pub open spec fn joined_values(values: Seq<u32>) -> Seq<char>
    decreases values.len(),
{
    if values.len() == 0 {
        Seq::empty()
    } else if values.len() == 1 {
        rendered_value(values[0])
    } else {
        joined_values(values.drop_last()) + ", "@ + rendered_value(values.last())
    }
}

/// The full presentation line for a result sequence.
pub open spec fn steps_line(values: Seq<u32>) -> Seq<char> {
    "Steps: ["@ + joined_values(values) + "]"@
}

/// Present a whole result sequence as the line `Steps: [v1, v2, ...]`, each
/// entry a decimal count or the token `OVERFLOW`.
pub fn render_steps_line(values: &Vec<u32>) -> (s: String)
    ensures
        s@ == steps_line(values@),
{
    let mut acc = String::from_str("Steps: [");
    let mut i: usize = 0;
    proof {
        assert(values@.subrange(0, 0) =~= Seq::<u32>::empty());
        assert(acc@ =~= "Steps: ["@ + joined_values(values@.subrange(0, 0)));
    }
    while i < values.len()
        invariant
            i <= values@.len(),
            acc@ == "Steps: ["@ + joined_values(values@.subrange(0, i as int)),
        decreases values@.len() - i,
    {
        if i > 0 {
            acc.append(", ");
        }
        let rv = render_value(values[i]);
        acc.append(rv.as_str());
        proof {
            let pre = values@.subrange(0, i as int);
            let post = values@.subrange(0, i as int + 1);
            assert(post.drop_last() =~= pre);
            assert(post.last() == values@[i as int]);
            assert(acc@ =~= "Steps: ["@ + joined_values(post));
        }
        i = i + 1;
    }
    proof {
        assert(values@.subrange(0, values@.len() as int) =~= values@);
    }
    let out = acc.concat("]");
    proof {
        assert(out@ =~= steps_line(values@));
    }
    out
}

} // verus!
