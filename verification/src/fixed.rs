//! Fixed-point helpers shared by the telemetry and camera modules.
//!
//! Quantities are integers counted in thousandths of their unit; durations
//! are counted in milliseconds.

use vstd::prelude::*;

verus! {

/// Thousandths per whole unit, and milliseconds per second.
pub const MILLI: i64 = 1000;

/// A bound on the size of any product of two 64-bit quantities divided by
/// `MILLI`: two to the power of 120.
pub const WIDE_BOUND: i128 = 0x0100_0000_0000_0000_0000_0000_0000_0000;

/// The quotient of `a` by a positive `b`, rounded toward zero.
pub open spec fn trunc_div(a: int, b: int) -> int {
    if a >= 0 {
        a / b
    } else {
        -((-a) / b)
    }
}

/// `x` limited to the closed interval from `lo` to `hi`.
pub open spec fn clamp(x: int, lo: int, hi: int) -> int {
    if x < lo {
        lo
    } else if x > hi {
        hi
    } else {
        x
    }
}

/// What a rate per second amounts to over `millis` milliseconds, rounded
/// toward zero.
pub open spec fn over_millis(rate: int, millis: int) -> int {
    trunc_div(rate * millis, MILLI as int)
}

/// The product of a quantity in thousandths and a factor in thousandths,
/// again in thousandths, rounded toward zero.
pub open spec fn times_milli(a: int, b: int) -> int {
    trunc_div(a * b, MILLI as int)
}

/// `x` as an `i64`, pinned to the nearest bound where it does not fit.
pub fn saturate_i64(x: i128) -> (r: i64)
    ensures
        r == clamp(x as int, i64::MIN as int, i64::MAX as int),
{
    if x < i64::MIN as i128 {
        i64::MIN
    } else if x > i64::MAX as i128 {
        i64::MAX
    } else {
        x as i64
    }
}

/// `x` as a `u64`, pinned to the nearest bound where it does not fit.
pub fn saturate_u64(x: i128) -> (r: u64)
    ensures
        r == clamp(x as int, 0, u64::MAX as int),
{
    if x < 0 {
        0
    } else if x > u64::MAX as i128 {
        u64::MAX
    } else {
        x as u64
    }
}

/// What `rate` per second amounts to over `millis` milliseconds.
pub fn scale_over_millis(rate: i64, millis: u64) -> (r: i128)
    ensures
        r == over_millis(rate as int, millis as int),
        -WIDE_BOUND <= r <= WIDE_BOUND,
{
    let wide_rate: i128 = rate as i128;
    let wide_millis: i128 = millis as i128;
    assert(-0x8000_0000_0000_0000 * 0xffff_ffff_ffff_ffff <= wide_rate * wide_millis
        <= 0x7fff_ffff_ffff_ffff * 0xffff_ffff_ffff_ffff) by (nonlinear_arith)
        requires
            -0x8000_0000_0000_0000 <= wide_rate <= 0x7fff_ffff_ffff_ffff,
            0 <= wide_millis <= 0xffff_ffff_ffff_ffff,
    ;
    let product: i128 = wide_rate * wide_millis;
    product / 1000
}

/// The product of two quantities in thousandths, in thousandths.
pub fn multiply_milli(a: i64, b: i64) -> (r: i128)
    ensures
        r == times_milli(a as int, b as int),
        -WIDE_BOUND <= r <= WIDE_BOUND,
{
    let wide_a: i128 = a as i128;
    let wide_b: i128 = b as i128;
    assert(-0x8000_0000_0000_0000 * 0x8000_0000_0000_0000 <= wide_a * wide_b
        <= 0x8000_0000_0000_0000 * 0x8000_0000_0000_0000) by (nonlinear_arith)
        requires
            -0x8000_0000_0000_0000 <= wide_a <= 0x7fff_ffff_ffff_ffff,
            -0x8000_0000_0000_0000 <= wide_b <= 0x7fff_ffff_ffff_ffff,
    ;
    let product: i128 = wide_a * wide_b;
    product / 1000
}

} // verus!
