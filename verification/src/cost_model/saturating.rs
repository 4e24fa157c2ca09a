//! Saturating signed 64-bit arithmetic, the arithmetic of every cost formula.

use vstd::prelude::*;

verus! {

/// The value of `x` clamped into the range of `i64`.
pub open spec fn clamp_i64(x: int) -> i64 {
    if x > i64::MAX {
        i64::MAX
    } else if x < i64::MIN {
        i64::MIN
    } else {
        x as i64
    }
}

/// `a + b`, clamped to the bounds of `i64`.
pub fn saturating_add_i64(a: i64, b: i64) -> (r: i64)
    ensures
        r == clamp_i64(a + b),
{
    match a.checked_add(b) {
        Some(s) => s,
        None => {
            if b > 0 {
                i64::MAX
            } else {
                i64::MIN
            }
        },
    }
}

/// `a - b`, clamped to the bounds of `i64`.
pub fn saturating_sub_i64(a: i64, b: i64) -> (r: i64)
    ensures
        r == clamp_i64(a - b),
{
    match a.checked_sub(b) {
        Some(s) => s,
        None => {
            if b < 0 {
                i64::MAX
            } else {
                i64::MIN
            }
        },
    }
}

/// `a * b`, clamped to the bounds of `i64`.
pub fn saturating_mul_i64(a: i64, b: i64) -> (r: i64)
    ensures
        r == clamp_i64(a * b),
{
    match a.checked_mul(b) {
        Some(p) => p,
        None => {
            assert(a != 0 && b != 0) by (nonlinear_arith)
                requires
                    a * b > i64::MAX || a * b < i64::MIN,
            ;
            if (a > 0) == (b > 0) {
                assert(a * b > 0) by (nonlinear_arith)
                    requires
                        (a > 0) == (b > 0),
                        a != 0,
                        b != 0,
                ;
                i64::MAX
            } else {
                assert(a * b < 0) by (nonlinear_arith)
                    requires
                        (a > 0) != (b > 0),
                        a != 0,
                        b != 0,
                ;
                i64::MIN
            }
        },
    }
}

/// The larger of `a` and `b`.
pub fn max_i64(a: i64, b: i64) -> (r: i64)
    ensures
        r == if a >= b { a } else { b },
{
    if a >= b {
        a
    } else {
        b
    }
}

/// The smaller of `a` and `b`.
pub fn min_i64(a: i64, b: i64) -> (r: i64)
    ensures
        r == if a <= b { a } else { b },
{
    if a <= b {
        a
    } else {
        b
    }
}

} // verus!
