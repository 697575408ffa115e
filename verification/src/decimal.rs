//! Decimal rendering of integers, for the XML parts of the slide deck.

use vstd::prelude::*;

verus! {

/// The decimal digit character of `d`.
pub open spec fn digit_char(d: nat) -> char {
    if d == 0 {
        '0'
    } else if d == 1 {
        '1'
    } else if d == 2 {
        '2'
    } else if d == 3 {
        '3'
    } else if d == 4 {
        '4'
    } else if d == 5 {
        '5'
    } else if d == 6 {
        '6'
    } else if d == 7 {
        '7'
    } else if d == 8 {
        '8'
    } else {
        '9'
    }
}

/// The decimal digits of `n`, most significant first, with no leading
/// zeros except for zero itself.
pub open spec fn dec_digits(n: nat) -> Seq<char>
    decreases n,
{
    if n < 10 {
        seq![digit_char(n)]
    } else {
        dec_digits(n / 10).push(digit_char(n % 10))
    }
}

/// The one-character string of a decimal digit.
fn digit_str(d: u64) -> (r: &'static str)
    requires
        d < 10,
    ensures
        r@ == seq![digit_char(d as nat)],
{
    proof {
        reveal_strlit("0");
        reveal_strlit("1");
        reveal_strlit("2");
        reveal_strlit("3");
        reveal_strlit("4");
        reveal_strlit("5");
        reveal_strlit("6");
        reveal_strlit("7");
        reveal_strlit("8");
        reveal_strlit("9");
    }
    match d {
        0 => "0",
        1 => "1",
        2 => "2",
        3 => "3",
        4 => "4",
        5 => "5",
        6 => "6",
        7 => "7",
        8 => "8",
        _ => "9",
    }
}

/// `n` written in decimal.
pub fn u64_to_string(n: u64) -> (r: String)
    ensures
        r@ == dec_digits(n as nat),
    decreases n,
{
    if n < 10 {
        return String::from_str(digit_str(n));
    }
    proof {
        assert(n as int / 10 < n as int) by (nonlinear_arith)
            requires
                n >= 10,
        ;
    }
    let mut s = u64_to_string(n / 10);
    s.append(digit_str(n % 10));
    proof {
        assert(dec_digits((n / 10) as nat) + seq![digit_char((n % 10) as nat)] =~= dec_digits(
            (n / 10) as nat,
        ).push(digit_char((n % 10) as nat)));
    }
    s
}

/// The decimal digits of `v`, with a leading minus sign when negative.
pub open spec fn dec_digits_i64(v: int) -> Seq<char> {
    if v < 0 {
        seq!['-'] + dec_digits((-v) as nat)
    } else {
        dec_digits(v as nat)
    }
}

/// `v` written in decimal, sign included.
pub fn i64_to_string(v: i64) -> (r: String)
    ensures
        r@ == dec_digits_i64(v as int),
{
    if v >= 0 {
        return u64_to_string(v as u64);
    }
    proof {
        reveal_strlit("-");
    }
    let mut s = String::from_str("-");
    let magnitude: u64 = ((-(v + 1)) as u64) + 1;
    proof {
        assert(magnitude as int == -(v as int));
    }
    let digits = u64_to_string(magnitude);
    s.append(digits.as_str());
    proof {
        assert("-"@ =~= seq!['-']);
    }
    s
}

} // verus!
