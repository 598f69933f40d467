//! Arithmetic that wraps a result outside the `i64` range around modulo 2^64.

use vstd::prelude::*;

verus! {

/// The number of distinct `i64` values.
pub open spec fn i64_span() -> int {
    0x1_0000_0000_0000_0000
}

/// The `i64` congruent to `x` modulo 2^64: two's-complement wraparound.
pub open spec fn wrap_i64(x: int) -> int {
    let m = x % i64_span();
    if m > i64::MAX {
        m - i64_span()
    } else {
        m
    }
}

/// `a + b`, wrapped into the `i64` range.
pub fn add(a: i64, b: i64) -> (r: i64)
    ensures
        r == wrap_i64(a + b),
{
    a.wrapping_add(b)
}

/// `a - b`, wrapped into the `i64` range.
pub fn subtract(a: i64, b: i64) -> (r: i64)
    ensures
        r == wrap_i64(a - b),
{
    a.wrapping_sub(b)
}

/// `a * b`, wrapped into the `i64` range.
pub fn multiply(a: i64, b: i64) -> (r: i64)
    ensures
        r == wrap_i64(a * b),
{
    a.wrapping_mul(b)
}

} // verus!
