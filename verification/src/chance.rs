//! The chance as it is shown: a percentage with one decimal.
//!
//! The chance is the quotient of two counts, taken in binary64 arithmetic;
//! the percentage is a hundred times the chance, in the same arithmetic; and
//! what is shown is that number rounded to tenths. The text has the digits
//! that the usual formatting of a binary64 number with one decimal yields.

use crate::binary64::{
    divide,
    hundredfold,
    lemma_round_bounds,
    lemma_round_is_nearest,
    lemma_round_to_binary64_normal,
    round_half_even,
    round_to_binary64,
    tenths,
    MANTISSA_MIN,
};
use crate::decimal::{append_decimal, decimal};
use vstd::arithmetic::div_mod::lemma_fundamental_div_mod;
use vstd::prelude::*;
use vstd::string::StringExecFns;

verus! {

/// The percentage that `successful` out of `total` makes, in tenths of a
/// percent.
pub open spec fn spec_percent_tenths(successful: nat, total: nat) -> nat
    recommends
        0 < total,
        successful <= total,
{
    let chance = round_to_binary64(successful, total);
    let percent = round_to_binary64(100 * chance.mantissa, chance.unit);
    round_half_even(10 * percent.mantissa, percent.unit)
}

/// A percentage given in tenths, written with one decimal and a percent
/// sign.
pub open spec fn percent_text(tenths: nat) -> Seq<char> {
    decimal(tenths / 10) + seq!['.'] + decimal(tenths % 10) + seq!['%']
}

/// Computes the percentage that `successful` out of `total` makes, in tenths
/// of a percent.
pub fn percent_tenths(successful: u32, total: u32) -> (rounded: u32)
    requires
        0 < total,
        successful <= total,
    ensures
        rounded == spec_percent_tenths(successful as nat, total as nat),
        rounded <= 1000,
{
    if successful == 0 {
        0
    } else {
        let chance = divide(successful, total);
        let percent = hundredfold(chance);
        tenths(percent)
    }
}

/// What is shown is a tenth nearest to the exact percentage: binary64
/// arithmetic loses less than counts of 32 bits can tell apart. Where the
/// exact percentage lies halfway between two tenths, either may be shown.
pub proof fn lemma_percent_is_nearest_tenth(successful: nat, total: nat)
    requires
        0 < total <= u32::MAX,
        successful <= total,
    ensures
        2 * (spec_percent_tenths(successful, total) * total - 1000 * successful) <= total,
        2 * (1000 * successful - spec_percent_tenths(successful, total) * total) <= total,
{
    let s = successful as int;
    let t = total as int;
    if successful == 0 {
        assert(round_to_binary64(0, total).mantissa == 0);
        assert(spec_percent_tenths(0, total) == 0);
    } else {
        // The chance: at most one, in units of two to the power of 52 or
        // finer, and within half a unit of the exact quotient.
        let chance = round_to_binary64(successful, total);
        let m1 = chance.mantissa as int;
        let u1 = chance.unit as int;
        assert(successful < 2 * MANTISSA_MIN * total) by (nonlinear_arith)
            requires
                successful <= total,
                0 < total,
        ;
        lemma_round_to_binary64_normal(successful, total);
        lemma_round_is_nearest(successful * chance.unit, total);
        assert(MANTISSA_MIN * t <= s * u1 <= u1 * t) by (nonlinear_arith)
            requires
                MANTISSA_MIN * t <= s * u1,
                s <= t,
                u1 >= 1,
        ;
        lemma_round_bounds(successful * chance.unit, total, MANTISSA_MIN as nat, chance.unit);
        assert(MANTISSA_MIN <= u1) by (nonlinear_arith)
            requires
                MANTISSA_MIN * t <= u1 * t,
                0 < t,
        ;

        // The percentage: within half a unit of a hundred times the chance.
        let percent = round_to_binary64(100 * chance.mantissa, chance.unit);
        let m2 = percent.mantissa as int;
        let u2 = percent.unit as int;
        assert(100 * m1 < 2 * MANTISSA_MIN * u1) by (nonlinear_arith)
            requires
                m1 <= u1,
                0 < u1,
        ;
        lemma_round_to_binary64_normal(100 * chance.mantissa, chance.unit);
        lemma_round_is_nearest(100 * chance.mantissa * percent.unit, chance.unit);
        assert(MANTISSA_MIN <= 100 * u2) by (nonlinear_arith)
            requires
                MANTISSA_MIN * u1 <= 100 * m1 * u2,
                m1 <= u1,
                0 < u1,
                0 < u2,
        ;

        // The tenths: within half a tenth of the percentage.
        let tenths = round_half_even(10 * percent.mantissa, percent.unit) as int;
        lemma_round_is_nearest(10 * percent.mantissa, percent.unit);

        // What the three roundings add, and what they add up to.
        let a = tenths * u2 - 10 * m2;
        let b = m2 * u1 - 100 * m1 * u2;
        let c = m1 * t - s * u1;
        let x = tenths * t - 1000 * s;
        let whole = tenths * t * u1 * u2;
        let late = t * u1 * m2;
        let early = t * m1 * u2;
        let exact = s * u1 * u2;
        assert(x * u1 * u2 == whole - 1000 * exact) by (nonlinear_arith)
            requires
                x == tenths * t - 1000 * s,
                whole == tenths * t * u1 * u2,
                exact == s * u1 * u2,
        ;
        assert(t * u1 * a == whole - 10 * late) by (nonlinear_arith)
            requires
                a == tenths * u2 - 10 * m2,
                whole == tenths * t * u1 * u2,
                late == t * u1 * m2,
        ;
        assert(10 * t * b == 10 * late - 1000 * early) by (nonlinear_arith)
            requires
                b == m2 * u1 - 100 * m1 * u2,
                late == t * u1 * m2,
                early == t * m1 * u2,
        ;
        assert(1000 * u2 * c == 1000 * early - 1000 * exact) by (nonlinear_arith)
            requires
                c == m1 * t - s * u1,
                early == t * m1 * u2,
                exact == s * u1 * u2,
        ;
        lemma_error_is_below_one(t, u1, u2, a, b, c, x);
    }
}

/// A percentage that is a whole number of tenths is shown as it is: none of
/// ten succeeds in zero percent of the attempts, three of ten in thirty,
/// and ten of ten in a hundred.
pub proof fn lemma_percent_is_exact(successful: nat, total: nat)
    requires
        0 < total <= u32::MAX,
        successful <= total,
        (1000 * successful) % total == 0,
    ensures
        spec_percent_tenths(successful, total) == (1000 * successful) / total,
{
    let shown = spec_percent_tenths(successful, total) as int;
    let exact = ((1000 * successful) / total) as int;
    let t = total as int;
    lemma_percent_is_nearest_tenth(successful, total);
    lemma_fundamental_div_mod((1000 * successful) as int, t);
    assert(1000 * successful == t * exact);
    assert(shown == exact) by (nonlinear_arith)
        requires
            2 * (shown * t - t * exact) <= t,
            2 * (t * exact - shown * t) <= t,
            0 < t,
    ;
}

/// The three roundings of the percentage, taken together, move the number
/// of tenths by no more than half a tenth. Here `a`, `b` and `c` are what
/// the last, the middle and the first rounding add, each in its own unit.
proof fn lemma_error_is_below_one(t: int, u1: int, u2: int, a: int, b: int, c: int, x: int)
    requires
        0 < t <= u32::MAX,
        MANTISSA_MIN <= u1,
        MANTISSA_MIN <= 100 * u2,
        -u2 <= 2 * a <= u2,
        -u1 <= 2 * b <= u1,
        -t <= 2 * c <= t,
        x * u1 * u2 == t * u1 * a + 10 * t * b + 1000 * u2 * c,
    ensures
        -t <= 2 * x <= t,
{
    let scale = u1 * u2;
    assert(scale > 0) by (nonlinear_arith)
        requires
            scale == u1 * u2,
            u1 > 0,
            u2 > 0,
    ;
    assert(x * u1 * u2 == x * scale) by (nonlinear_arith)
        requires
            scale == u1 * u2,
    ;
    // Each rounding adds at most half of its unit.
    assert(-(t * scale) <= 2 * (t * u1 * a) <= t * scale) by (nonlinear_arith)
        requires
            -u2 <= 2 * a <= u2,
            0 < t,
            0 < u1,
            scale == u1 * u2,
    ;
    assert(-(10 * t * u1) <= 2 * (10 * t * b) <= 10 * t * u1) by (nonlinear_arith)
        requires
            -u1 <= 2 * b <= u1,
            0 < t,
    ;
    assert(-(1000 * u2 * t) <= 2 * (1000 * u2 * c) <= 1000 * u2 * t) by (nonlinear_arith)
        requires
            -t <= 2 * c <= t,
            0 < u2,
    ;
    // The units are far larger than the total.
    assert(2 * (10 * t * u1) < scale) by (nonlinear_arith)
        requires
            scale == u1 * u2,
            20 * t < u2,
            0 < u1,
    ;
    assert(2 * (1000 * u2 * t) < scale) by (nonlinear_arith)
        requires
            scale == u1 * u2,
            2000 * t < u1,
            0 < u2,
    ;
    assert(2 * x <= t) by (nonlinear_arith)
        requires
            2 * (x * scale) < t * scale + scale,
            scale > 0,
    ;
    assert(-t <= 2 * x) by (nonlinear_arith)
        requires
            -(t * scale) - scale < 2 * (x * scale),
            scale > 0,
    ;
}

/// Writes a percentage given in tenths at the end of a text.
pub fn append_percent(text: &mut String, tenths: u32)
    ensures
        final(text)@ == old(text)@ + percent_text(tenths as nat),
{
    append_decimal(text, tenths / 10);
    proof {
        reveal_strlit(".");
        reveal_strlit("%");
    }
    text.append(".");
    append_decimal(text, tenths % 10);
    text.append("%");
}

} // verus!
