//! Decimal rendering of integers into strings.

use vstd::prelude::*;
use vstd::string::*;

verus! {

/// The character of the decimal digit `d`.
pub open spec fn digit_char(d: int) -> char {
    if d == 0 {
        '0'
    } else if d == 1 {
        '1'
    } else if d == 2 {
        '2'
    } else if d == 3 {
        '3'
    } else if d == 4 {
        '4'
    } else if d == 5 {
        '5'
    } else if d == 6 {
        '6'
    } else if d == 7 {
        '7'
    } else if d == 8 {
        '8'
    } else {
        '9'
    }
}

/// The decimal digits of `n`, most significant first, without leading zeros.
pub open spec fn nat_text(n: nat) -> Seq<char>
    decreases n,
{
    if n < 10 {
        seq![digit_char(n as int)]
    } else {
        nat_text((n / 10) as nat).push(digit_char((n % 10) as int))
    }
}

/// The decimal rendering of `i`: a minus sign before the digits of a negative value.
pub open spec fn int_text(i: int) -> Seq<char> {
    if i < 0 {
        seq!['-'] + nat_text((-i) as nat)
    } else {
        nat_text(i as nat)
    }
}

/// The one-character string of the decimal digit `d`.
fn digit_str(d: u64) -> (r: &'static str)
    requires
        d < 10,
    ensures
        r@ == seq![digit_char(d as int)],
{
    proof {
        reveal_strlit("0");
        reveal_strlit("1");
        reveal_strlit("2");
        reveal_strlit("3");
        reveal_strlit("4");
        reveal_strlit("5");
        reveal_strlit("6");
        reveal_strlit("7");
        reveal_strlit("8");
        reveal_strlit("9");
    }
    let r = match d {
        0 => "0",
        1 => "1",
        2 => "2",
        3 => "3",
        4 => "4",
        5 => "5",
        6 => "6",
        7 => "7",
        8 => "8",
        _ => "9",
    };
    assert(r@ =~= seq![digit_char(d as int)]);
    r
}

/// Appends the decimal digits of `n` to `s`.
pub fn push_nat(s: &mut String, n: u64)
    ensures
        final(s)@ == old(s)@ + nat_text(n as nat),
    decreases n,
{
    if n >= 10 {
        push_nat(s, n / 10);
    }
    s.append(digit_str(n % 10));
    assert(final(s)@ =~= old(s)@ + nat_text(n as nat));
}

/// Appends the decimal rendering of `n` to `s`.
pub fn push_int(s: &mut String, n: i64)
    ensures
        final(s)@ == old(s)@ + int_text(n as int),
{
    if n < 0 {
        proof {
            reveal_strlit("-");
        }
        s.append("-");
        let magnitude: u64 = (-(n as i128)) as u64;
        push_nat(s, magnitude);
        assert(final(s)@ =~= old(s)@ + int_text(n as int));
    } else {
        push_nat(s, n as u64);
    }
}

} // verus!
