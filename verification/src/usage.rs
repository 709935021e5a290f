//! Utilization ratios in millionths, and the blend between two of them.

use vstd::prelude::*;
use crate::fixed::clamp;

verus! {

/// The ratio 1, in millionths. Every ratio lies between 0 and `UNIT`.
pub const UNIT: u64 = 1_000_000;

/// The share of elapsed ticks that were not idle, in millionths, rounded
/// down and limited to the range from 0 to `UNIT`. Where no ticks elapsed,
/// or the counters ran backwards, the fallback stands in, limited likewise.
pub open spec fn usage_ratio(total_delta: int, idle_delta: int, fallback: int) -> int {
    if total_delta <= 0 {
        clamp(fallback, 0, UNIT as int)
    } else {
        clamp((UNIT * (total_delta - idle_delta)) / total_delta, 0, UNIT as int)
    }
}

/// The point between `prev` and `last` that lies `progress` millionths of
/// the way from the first to the second, rounded down. A `progress` beyond
/// `UNIT` counts as `UNIT`.
pub open spec fn blend(prev: int, last: int, progress: int) -> int {
    prev + ((last - prev) * clamp(progress, 0, UNIT as int)) / (UNIT as int)
}

/// Computes `usage_ratio` from the four counter sums of two samples, none
/// of which exceeds what ten 64-bit counters can add up to.
pub(crate) fn compute_usage(
    total: u128,
    older_total: u128,
    idle: u128,
    older_idle: u128,
    fallback: u64,
) -> (r: u64)
    requires
        total <= 10 * u64::MAX,
    ensures
        r == usage_ratio(total - older_total, idle - older_idle, fallback as int),
        r <= UNIT,
{
    if total <= older_total {
        return if fallback > UNIT { UNIT } else { fallback };
    }
    let total_delta: u128 = total - older_total;
    if idle <= older_idle {
        proof {
            let busy = total_delta as int - (idle as int - older_idle as int);
            assert((UNIT * busy) / (total_delta as int) >= UNIT) by (nonlinear_arith)
                requires
                    busy >= total_delta as int,
                    total_delta as int > 0,
            ;
        }
        return UNIT;
    }
    let idle_delta: u128 = idle - older_idle;
    if idle_delta >= total_delta {
        proof {
            let busy = total_delta as int - idle_delta as int;
            assert((UNIT * busy) / (total_delta as int) <= 0) by (nonlinear_arith)
                requires
                    busy <= 0,
                    total_delta as int > 0,
            ;
        }
        return 0;
    }
    let busy: u128 = total_delta - idle_delta;
    assert(busy * UNIT <= 10 * u64::MAX * UNIT) by (nonlinear_arith)
        requires
            busy <= 10 * u64::MAX,
    ;
    let scaled: u128 = busy * (UNIT as u128);
    let ratio: u128 = scaled / total_delta;
    proof {
        assert(0 <= (UNIT * busy) / (total_delta as int) <= UNIT) by (nonlinear_arith)
            requires
                0 <= busy <= total_delta,
                total_delta > 0,
        ;
        assert(UNIT * busy == busy * UNIT) by (nonlinear_arith);
    }
    ratio as u64
}

/// Computes `blend` for two ratios.
pub fn interpolate(prev: u64, last: u64, progress: u64) -> (r: u64)
    requires
        prev <= UNIT,
        last <= UNIT,
    ensures
        r == blend(prev as int, last as int, progress as int),
        prev <= last ==> prev <= r <= last,
        last <= prev ==> last <= r <= prev,
{
    let p: u64 = if progress > UNIT { UNIT } else { progress };
    proof {
        lemma_blend_between(prev as int, last as int, progress as int);
    }
    if last >= prev {
        let span: u64 = last - prev;
        assert(span * p <= UNIT * UNIT) by (nonlinear_arith)
            requires
                span <= UNIT,
                p <= UNIT,
        ;
        prev + span * p / UNIT
    } else {
        let span: u64 = prev - last;
        assert(span * p <= UNIT * UNIT) by (nonlinear_arith)
            requires
                span <= UNIT,
                p <= UNIT,
        ;
        let product: u64 = span * p;
        let down: u64 = (product + (UNIT - 1)) / UNIT;
        proof {
            lemma_floor_of_negative(product as int, UNIT as int);
            assert((last as int - prev as int) * (p as int) == -(product as int)) by (nonlinear_arith)
                requires
                    product as int == (prev as int - last as int) * (p as int),
            ;
        }
        prev - down
    }
}

/// Rounding a negative quotient down is rounding its size up.
pub proof fn lemma_floor_of_negative(a: int, b: int)
    requires
        a >= 0,
        b >= 1,
    ensures
        (-a) / b == -((a + b - 1) / b),
{
    let q = (a + b - 1) / b;
    let r = (a + b - 1) % b;
    vstd::arithmetic::div_mod::lemma_fundamental_div_mod(a + b - 1, b);
    vstd::arithmetic::div_mod::lemma_mod_bound(a + b - 1, b);
    // a + b - 1 == b * q + r, so -a == b * (-q) + (b - 1 - r) with 0 <= b - 1 - r < b.
    assert(-a == b * (-q) + (b - 1 - r)) by (nonlinear_arith)
        requires
            a + b - 1 == b * q + r,
    ;
    vstd::arithmetic::div_mod::lemma_fundamental_div_mod_converse(-a, b, -q, b - 1 - r);
}

/// A blend lies between its two ends, starts at the first and arrives at
/// the second.
pub proof fn lemma_blend_between(prev: int, last: int, progress: int)
    ensures
        prev <= last ==> prev <= blend(prev, last, progress) <= last,
        last <= prev ==> last <= blend(prev, last, progress) <= prev,
        progress <= 0 ==> blend(prev, last, progress) == prev,
        progress >= UNIT ==> blend(prev, last, progress) == last,
{
    let p = clamp(progress, 0, UNIT as int);
    let u = UNIT as int;
    let d = last - prev;
    if d >= 0 {
        assert(0 <= (d * p) / u <= d) by (nonlinear_arith)
            requires
                d >= 0,
                0 <= p <= u,
                u > 0,
        ;
    } else {
        assert(d <= (d * p) / u <= 0) by (nonlinear_arith)
            requires
                d <= 0,
                0 <= p <= u,
                u > 0,
        ;
    }
    if progress <= 0 {
        assert(d * 0 == 0);
    }
    if progress >= UNIT {
        assert((d * u) / u == d) by (nonlinear_arith)
            requires
                u > 0,
        ;
    }
}

/// A blend moves monotonically from its first end toward its second as
/// progress grows.
pub proof fn lemma_blend_monotone(prev: int, last: int, p: int, q: int)
    requires
        p <= q,
    ensures
        prev <= last ==> blend(prev, last, p) <= blend(prev, last, q),
        last <= prev ==> blend(prev, last, p) >= blend(prev, last, q),
{
    let a = clamp(p, 0, UNIT as int);
    let b = clamp(q, 0, UNIT as int);
    let u = UNIT as int;
    let d = last - prev;
    if d >= 0 {
        assert((d * a) / u <= (d * b) / u) by (nonlinear_arith)
            requires
                d >= 0,
                a <= b,
                u > 0,
        ;
    }
    if d <= 0 {
        assert((d * a) / u >= (d * b) / u) by (nonlinear_arith)
            requires
                d <= 0,
                a <= b,
                u > 0,
        ;
    }
}

/// A usage ratio is never outside the range from 0 to `UNIT`, whatever the
/// counters and the fallback.
pub proof fn lemma_usage_in_range(total_delta: int, idle_delta: int, fallback: int)
    ensures
        0 <= usage_ratio(total_delta, idle_delta, fallback) <= UNIT,
{
}

/// Where no ticks elapsed, or the counters ran backwards, the usage is the
/// fallback when that is itself a ratio.
pub proof fn lemma_usage_degenerate(total_delta: int, idle_delta: int, fallback: int)
    requires
        total_delta <= 0,
        0 <= fallback <= UNIT,
    ensures
        usage_ratio(total_delta, idle_delta, fallback) == fallback,
{
}

} // verus!
