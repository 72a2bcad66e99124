//! Rendering of civil times in the fixed layout `DD/MM/YYYY - HH:MM:SS`
//! (24-hour clock, zero-padded fields, at least four year digits).

use vstd::prelude::*;
use crate::calendar::{CivilTime, MAX_YEAR_ABS};

verus! {

pub open spec fn digit_char(d: int) -> char {
    if d == 0 {
        '0'
    } else if d == 1 {
        '1'
    } else if d == 2 {
        '2'
    } else if d == 3 {
        '3'
    } else if d == 4 {
        '4'
    } else if d == 5 {
        '5'
    } else if d == 6 {
        '6'
    } else if d == 7 {
        '7'
    } else if d == 8 {
        '8'
    } else {
        '9'
    }
}

/// The decimal digits of a nonnegative number, most significant first.
pub open spec fn dec_seq(n: int) -> Seq<char>
    decreases n,
{
    if n < 10 {
        seq![digit_char(n)]
    } else {
        dec_seq(n / 10).push(digit_char(n % 10))
    }
}

/// A number below 100 as exactly two digits.
pub open spec fn two_digits(n: int) -> Seq<char> {
    seq![digit_char(n / 10), digit_char(n % 10)]
}

/// A nonnegative number zero-padded to at least four digits.
pub open spec fn four_digits(n: int) -> Seq<char> {
    if n < 10 {
        seq!['0', '0', '0'] + dec_seq(n)
    } else if n < 100 {
        seq!['0', '0'] + dec_seq(n)
    } else if n < 1000 {
        seq!['0'] + dec_seq(n)
    } else {
        dec_seq(n)
    }
}

/// A year: four or more digits, with a leading minus sign before 1 BCE.
pub open spec fn year_digits(y: int) -> Seq<char> {
    if y < 0 {
        seq!['-'] + four_digits(-y)
    } else {
        four_digits(y)
    }
}

/// The fixed timestamp layout `DD/MM/YYYY - HH:MM:SS`.
pub open spec fn timestamp_seq(c: CivilTime) -> Seq<char> {
    two_digits(c.day as int) + seq!['/'] + two_digits(c.month as int) + seq!['/']
        + year_digits(c.year as int) + seq![' ', '-', ' '] + two_digits(c.hour as int)
        + seq![':'] + two_digits(c.minute as int) + seq![':'] + two_digits(c.second as int)
}

proof fn lemma_four_digits_len(n: int)
    requires
        0 <= n <= 9999,
    ensures
        four_digits(n).len() == 4,
{
    reveal_with_fuel(dec_seq, 5);
}

/// Law: for a civil time whose year has four digits, the rendering is
/// exactly 21 characters long, with the separators of the layout
/// `DD/MM/YYYY - HH:MM:SS` in their fixed positions.
pub proof fn lemma_timestamp_layout(c: CivilTime)
    requires
        c.wf(),
        0 <= c.year <= 9999,
    ensures
        timestamp_seq(c).len() == 21,
        timestamp_seq(c)[2] == '/',
        timestamp_seq(c)[5] == '/',
        timestamp_seq(c)[10] == ' ',
        timestamp_seq(c)[11] == '-',
        timestamp_seq(c)[12] == ' ',
        timestamp_seq(c)[15] == ':',
        timestamp_seq(c)[18] == ':',
{
    lemma_four_digits_len(c.year as int);
}

fn digit_str(d: u64) -> (r: &'static str)
    requires
        d < 10,
    ensures
        r@ == seq![digit_char(d as int)],
{
    proof {
        reveal_strlit("0");
        reveal_strlit("1");
        reveal_strlit("2");
        reveal_strlit("3");
        reveal_strlit("4");
        reveal_strlit("5");
        reveal_strlit("6");
        reveal_strlit("7");
        reveal_strlit("8");
        reveal_strlit("9");
    }
    let r = if d == 0 {
        "0"
    } else if d == 1 {
        "1"
    } else if d == 2 {
        "2"
    } else if d == 3 {
        "3"
    } else if d == 4 {
        "4"
    } else if d == 5 {
        "5"
    } else if d == 6 {
        "6"
    } else if d == 7 {
        "7"
    } else if d == 8 {
        "8"
    } else {
        "9"
    };
    proof {
        assert(r@ =~= seq![digit_char(d as int)]);
    }
    r
}

fn push_two_digits(out: &mut String, n: u64)
    requires
        n < 100,
    ensures
        final(out)@ == old(out)@ + two_digits(n as int),
{
    out.append(digit_str(n / 10));
    out.append(digit_str(n % 10));
    proof {
        assert(out@ =~= old(out)@ + two_digits(n as int));
    }
}

fn push_dec(out: &mut String, n: u64)
    ensures
        final(out)@ == old(out)@ + dec_seq(n as int),
    decreases n,
{
    if n < 10 {
        out.append(digit_str(n));
        proof {
            assert(out@ =~= old(out)@ + dec_seq(n as int));
        }
    } else {
        push_dec(out, n / 10);
        out.append(digit_str(n % 10));
        proof {
            assert(out@ =~= old(out)@ + dec_seq(n as int));
        }
    }
}

fn push_year(out: &mut String, y: i64)
    requires
        -MAX_YEAR_ABS <= y <= MAX_YEAR_ABS,
    ensures
        final(out)@ == old(out)@ + year_digits(y as int),
{
    proof {
        reveal_strlit("-");
        reveal_strlit("0");
        reveal_strlit("00");
        reveal_strlit("000");
    }
    let n: u64 = if y < 0 {
        out.append("-");
        (-y) as u64
    } else {
        y as u64
    };
    if n < 10 {
        out.append("000");
    } else if n < 100 {
        out.append("00");
    } else if n < 1000 {
        out.append("0");
    }
    push_dec(out, n);
    proof {
        assert(out@ =~= old(out)@ + year_digits(y as int));
    }
}

/// Renders a civil time in the layout `DD/MM/YYYY - HH:MM:SS`.
pub fn render_timestamp(c: &CivilTime) -> (r: String)
    requires
        c.wf(),
    ensures
        r@ == timestamp_seq(*c),
{
    proof {
        reveal_strlit("/");
        reveal_strlit(" - ");
        reveal_strlit(":");
    }
    let mut out = String::new();
    push_two_digits(&mut out, c.day as u64);
    out.append("/");
    push_two_digits(&mut out, c.month as u64);
    out.append("/");
    push_year(&mut out, c.year);
    out.append(" - ");
    push_two_digits(&mut out, c.hour as u64);
    out.append(":");
    push_two_digits(&mut out, c.minute as u64);
    out.append(":");
    push_two_digits(&mut out, c.second as u64);
    proof {
        assert(out@ =~= timestamp_seq(*c));
    }
    out
}

} // verus!
