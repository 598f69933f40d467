//! Checked arithmetic on two `i64` operands: the exact result, or an error
//! when it is not representable.

use vstd::prelude::*;
use crate::error::CalculatorError;

verus! {

/// Whether `x` can be held by an `i64`.
pub open spec fn fits_i64(x: int) -> bool {
    i64::MIN <= x <= i64::MAX
}

/// The absolute value of `x`.
pub open spec fn abs(x: int) -> int {
    if x < 0 {
        -x
    } else {
        x
    }
}

/// Division rounding toward zero, as Rust's `/` does on signed integers.
pub open spec fn trunc_div(a: int, b: int) -> int {
    let q = abs(a) / abs(b);
    if (a < 0) != (b < 0) {
        -q
    } else {
        q
    }
}

/// The remainder of `trunc_div`: it takes the sign of the dividend, as Rust's `%` does.
pub open spec fn trunc_rem(a: int, b: int) -> int {
    let m = abs(a) % abs(b);
    if a < 0 {
        -m
    } else {
        m
    }
}

/// `a + b`; `Overflow` when the sum does not fit.
pub fn checked_add(a: i64, b: i64) -> (r: Result<i64, CalculatorError>)
    ensures
        fits_i64(a + b) <==> r is Ok,
        r matches Ok(n) ==> n == a + b,
        r matches Err(e) ==> e == CalculatorError::Overflow,
{
    match a.checked_add(b) {
        Some(n) => Ok(n),
        None => Err(CalculatorError::Overflow),
    }
}

/// `a - b`; `Underflow` when the difference does not fit.
pub fn checked_subtract(a: i64, b: i64) -> (r: Result<i64, CalculatorError>)
    ensures
        fits_i64(a - b) <==> r is Ok,
        r matches Ok(n) ==> n == a - b,
        r matches Err(e) ==> e == CalculatorError::Underflow,
{
    match a.checked_sub(b) {
        Some(n) => Ok(n),
        None => Err(CalculatorError::Underflow),
    }
}

/// `a * b`; `Overflow` when the product does not fit.
pub fn checked_multiply(a: i64, b: i64) -> (r: Result<i64, CalculatorError>)
    ensures
        fits_i64(a * b) <==> r is Ok,
        r matches Ok(n) ==> n == a * b,
        r matches Err(e) ==> e == CalculatorError::Overflow,
{
    match a.checked_mul(b) {
        Some(n) => Ok(n),
        None => Err(CalculatorError::Overflow),
    }
}

/// `a / b` rounded toward zero; `DivisionByZero` when `b` is zero, and
/// `Overflow` for the one quotient that does not fit (`i64::MIN / -1`).
pub fn checked_divide(a: i64, b: i64) -> (r: Result<i64, CalculatorError>)
    ensures
        (b != 0 && fits_i64(trunc_div(a as int, b as int))) <==> r is Ok,
        r matches Ok(n) ==> n == trunc_div(a as int, b as int),
        r matches Err(e) ==> e == (if b == 0 {
            CalculatorError::DivisionByZero
        } else {
            CalculatorError::Overflow
        }),
        b != 0 ==> (fits_i64(trunc_div(a as int, b as int)) <==> !(a == i64::MIN && b == -1)),
{
    if b == 0 {
        return Err(CalculatorError::DivisionByZero);
    }
    assert(fits_i64(trunc_div(a as int, b as int)) <==> !(a == i64::MIN && b == -1)) by {
        if b == -1 || b == 1 {
            assert(abs(a as int) / 1 == abs(a as int));
        } else {
            lemma_trunc_div_halves(a as int, b as int);
        }
    }
    match a.checked_div(b) {
        Some(n) => Ok(n),
        None => Err(CalculatorError::Overflow),
    }
}

/// Rust's `%` on `i64` is `trunc_rem` wherever it is defined.
pub(crate) proof fn lemma_checked_rem_is_trunc_rem(a: i64, b: i64)
    requires
        b != 0,
        !(a == i64::MIN && b == -1),
    ensures
        a.checked_rem(b) == Some(trunc_rem(a as int, b as int) as i64),
{
    let m = abs(a as int) % abs(b as int);
    vstd::arithmetic::div_mod::lemma_mod_bound(abs(a as int), abs(b as int));
    if a == 0 {
        vstd::arithmetic::div_mod::lemma_small_mod(0, abs(b as int) as nat);
    }
    assert(0 <= m < abs(b as int));
}

/// Dividing by a divisor of size at least 2 at least halves the size of the dividend.
proof fn lemma_trunc_div_halves(a: int, b: int)
    requires
        abs(b) >= 2,
    ensures
        abs(trunc_div(a, b)) <= abs(a) / 2,
{
    vstd::arithmetic::div_mod::lemma_div_is_ordered_by_denominator(abs(a), 2, abs(b));
    vstd::arithmetic::div_mod::lemma_div_pos_is_pos(abs(a), abs(b));
}

} // verus!
