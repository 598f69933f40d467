//! Arithmetic that clamps a result outside the `i64` range to the nearest bound.

use vstd::prelude::*;

verus! {

/// `x` clamped to the `i64` range.
pub open spec fn clamp_i64(x: int) -> int {
    if x > i64::MAX {
        i64::MAX as int
    } else if x < i64::MIN {
        i64::MIN as int
    } else {
        x
    }
}

/// `a + b`, clamped to the `i64` range.
pub fn add(a: i64, b: i64) -> (r: i64)
    ensures
        r == clamp_i64(a + b),
{
    match a.checked_add(b) {
        Some(n) => n,
        None => if b > 0 {
            i64::MAX
        } else {
            i64::MIN
        },
    }
}

/// `a - b`, clamped to the `i64` range.
pub fn subtract(a: i64, b: i64) -> (r: i64)
    ensures
        r == clamp_i64(a - b),
{
    match a.checked_sub(b) {
        Some(n) => n,
        None => if b < 0 {
            i64::MAX
        } else {
            i64::MIN
        },
    }
}

/// `a * b`, clamped to the `i64` range.
pub fn multiply(a: i64, b: i64) -> (r: i64)
    ensures
        r == clamp_i64(a * b),
{
    match a.checked_mul(b) {
        Some(n) => n,
        None => {
            if (a < 0) == (b < 0) {
                assert(a * b >= 0) by (nonlinear_arith)
                    requires
                        (a < 0) == (b < 0),
                ;
                i64::MAX
            } else {
                assert(a * b <= 0) by (nonlinear_arith)
                    requires
                        (a < 0) != (b < 0),
                ;
                i64::MIN
            }
        },
    }
}

} // verus!
