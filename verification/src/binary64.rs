//! Division and multiplication as binary64 arithmetic carries them out, on
//! integers.
//!
//! A binary64 number has a mantissa of 53 bits. The result of an operation
//! is the exact result rounded to the nearest such number, and to the one
//! with an even mantissa where two are equally near. This module states that
//! rounding for positive fractions and computes it without a floating point
//! unit, bit for bit. It leaves aside the numbers at the ends of the range
//! of binary64, which have fewer bits or none: the fractions it is used for
//! lie between one in two to the power of 32 and a hundred.

use vstd::arithmetic::div_mod::{
    lemma_div_multiples_vanish_quotient,
    lemma_fundamental_div_mod,
    lemma_truncate_middle,
};
use vstd::arithmetic::power2::{
    lemma2_to64,
    lemma_pow2_adds,
    lemma_pow2_pos,
    lemma_pow2_strictly_increases,
    lemma_pow2_unfold,
    pow2,
};
use vstd::prelude::*;

verus! {

/// The least mantissa of 53 bits: two to the power of 52.
pub const MANTISSA_MIN: u64 = 0x10_0000_0000_0000;

/// The integer nearest to `num / den`, and the even one where two are
/// equally near.
pub open spec fn round_half_even(num: nat, den: nat) -> nat
    recommends
        den > 0,
{
    let quotient = num / den;
    let remainder = num % den;
    if 2 * remainder < den {
        quotient
    } else if 2 * remainder > den {
        quotient + 1
    } else if quotient % 2 == 0 {
        quotient
    } else {
        quotient + 1
    }
}

/// The non-negative number `mantissa / unit`, where `unit` is a power of two.
pub struct Binary64 {
    pub mantissa: nat,
    pub unit: nat,
}

/// How far `num / den` is below the least mantissa.
pub open spec fn headroom(num: nat, den: nat) -> nat {
    if num < MANTISSA_MIN * den {
        (MANTISSA_MIN * den - num) as nat
    } else {
        0
    }
}

/// The binary64 number nearest to `num / den`, for a fraction below two to
/// the power of 53: the fraction is doubled until its whole part is a
/// mantissa of 53 bits, which halves the unit each time, and is then rounded
/// to the nearest integer.
pub open spec fn round_to_binary64(num: nat, den: nat) -> Binary64
    recommends
        den > 0,
        num < 2 * MANTISSA_MIN * den,
    decreases headroom(num, den),
{
    if num == 0 || den == 0 || num >= MANTISSA_MIN * den {
        Binary64 { mantissa: round_half_even(num, den), unit: 1 }
    } else {
        let rounded = round_to_binary64(2 * num, den);
        Binary64 { mantissa: rounded.mantissa, unit: 2 * rounded.unit }
    }
}

/// Rounds `num / den` to the nearest integer, and to the even one where two
/// are equally near.
pub fn nearest(num: u128, den: u128) -> (rounded: u128)
    requires
        den > 0,
        num / den < u128::MAX,
    ensures
        rounded == round_half_even(num as nat, den as nat),
{
    let quotient = num / den;
    let remainder = num % den;
    if remainder < den - remainder {
        quotient
    } else if remainder > den - remainder {
        quotient + 1
    } else if quotient % 2 == 0 {
        quotient
    } else {
        quotient + 1
    }
}

/// Rounding does not pass an integer that the fraction does not pass.
pub proof fn lemma_round_bounds(num: nat, den: nat, low: nat, high: nat)
    requires
        den > 0,
        low * den <= num <= high * den,
    ensures
        low <= round_half_even(num, den) <= high,
{
    let q = num / den;
    let r = num % den;
    lemma_fundamental_div_mod(num as int, den as int);
    assert(low <= q) by (nonlinear_arith)
        requires
            low * den <= den * q + r,
            r < den,
            den > 0,
    ;
    assert(q < high || (q == high && r == 0)) by (nonlinear_arith)
        requires
            den * q + r <= high * den,
            0 <= r,
            den > 0,
    ;
}

/// The rounded quotient is within half of the fraction.
pub proof fn lemma_round_is_nearest(num: nat, den: nat)
    requires
        den > 0,
    ensures
        2 * (round_half_even(num, den) * den - num) <= den,
        2 * (num - round_half_even(num, den) * den) <= den,
{
    let q = num / den;
    let r = num % den;
    lemma_fundamental_div_mod(num as int, den as int);
    assert(q * den == den * q) by (nonlinear_arith);
    assert((q + 1) * den == den * q + den) by (nonlinear_arith);
}

/// A common factor of numerator and denominator does not change the rounded
/// quotient.
pub proof fn lemma_round_scaled(num: nat, den: nat, factor: nat)
    requires
        den > 0,
        factor > 0,
    ensures
        round_half_even(num * factor, den * factor) == round_half_even(num, den),
{
    lemma_div_multiples_vanish_quotient(factor as int, num as int, den as int);
    lemma_truncate_middle(num as int, factor as int, den as int);
    assert(den * factor == factor * den) by (nonlinear_arith);
    let r = num % den;
    assert(2 * (factor * r) < factor * den <==> 2 * r < den) by (nonlinear_arith)
        requires
            factor > 0,
    ;
    assert(2 * (factor * r) > factor * den <==> 2 * r > den) by (nonlinear_arith)
        requires
            factor > 0,
    ;
}

/// Where doubling the fraction `places` times gives a mantissa of 53 bits,
/// the nearest binary64 number is that many times doubled fraction, rounded,
/// over two to the power of `places`.
pub proof fn lemma_round_to_binary64(num: nat, den: nat, places: nat)
    requires
        num > 0,
        den > 0,
        MANTISSA_MIN * den <= num * pow2(places) < 2 * MANTISSA_MIN * den,
    ensures
        round_to_binary64(num, den) == (Binary64 {
            mantissa: round_half_even(num * pow2(places), den),
            unit: pow2(places),
        }),
    decreases places,
{
    lemma2_to64();
    if places == 0 {
        assert(num * pow2(0) == num);
    } else {
        let rest = (places - 1) as nat;
        lemma_pow2_unfold(places);
        lemma_pow2_pos(rest);
        assert(num * pow2(places) == (2 * num) * pow2(rest)) by (nonlinear_arith)
            requires
                pow2(places) == 2 * pow2(rest),
        ;
        assert(2 * num <= (2 * num) * pow2(rest)) by (nonlinear_arith)
            requires
                pow2(rest) > 0,
        ;
        assert(num < MANTISSA_MIN * den) by (nonlinear_arith)
            requires
                2 * num < 2 * MANTISSA_MIN * den,
        ;
        lemma_round_to_binary64(2 * num, den, rest);
    }
}

/// The nearest binary64 number to a fraction is the fraction in units of a
/// whole number, with a whole part of 53 bits, rounded.
pub proof fn lemma_round_to_binary64_normal(num: nat, den: nat)
    requires
        num > 0,
        den > 0,
        num < 2 * MANTISSA_MIN * den,
    ensures
        round_to_binary64(num, den).unit >= 1,
        MANTISSA_MIN * den <= num * round_to_binary64(num, den).unit < 2 * MANTISSA_MIN * den,
        round_to_binary64(num, den).mantissa == round_half_even(
            num * round_to_binary64(num, den).unit,
            den,
        ),
    decreases headroom(num, den),
{
    if num >= MANTISSA_MIN * den {
    } else {
        assert(2 * num < 2 * MANTISSA_MIN * den) by (nonlinear_arith)
            requires
                num < MANTISSA_MIN * den,
        ;
        lemma_round_to_binary64_normal(2 * num, den);
        let unit = round_to_binary64(2 * num, den).unit;
        assert(num * (2 * unit) == (2 * num) * unit) by (nonlinear_arith);
    }
}

/// A binary64 number held as integers: `mantissa / unit`, where `unit` is two
/// to the power of `places`.
#[derive(Clone, Copy, Debug)]
pub struct Float {
    pub mantissa: u64,
    pub unit: u128,
    pub places: u32,
}

impl View for Float {
    type V = Binary64;

    open spec fn view(&self) -> Binary64 {
        Binary64 { mantissa: self.mantissa as nat, unit: self.unit as nat }
    }
}

impl Float {
    /// The unit is the power of two that `places` names.
    pub open spec fn wf(&self) -> bool {
        self.unit == pow2(self.places as nat)
    }

    /// Whether the mantissa has 53 bits, or is the power of two above them.
    pub open spec fn is_normal(&self) -> bool {
        MANTISSA_MIN <= self.mantissa <= 2 * MANTISSA_MIN
    }
}

/// The powers of two that this module names.
proof fn lemma_pow2_values()
    ensures
        pow2(6) == 64,
        pow2(7) == 128,
        pow2(52) == MANTISSA_MIN,
        pow2(84) == 0x10_0000_0000_0000_0000_0000,
{
    lemma2_to64();
    lemma_pow2_adds(32, 20);
    lemma_pow2_adds(64, 20);
    assert(pow2(32) * pow2(20) == MANTISSA_MIN) by (nonlinear_arith)
        requires
            pow2(32) == 0x1_0000_0000,
            pow2(20) == 0x10_0000,
    ;
    assert(pow2(64) * pow2(20) == 0x10_0000_0000_0000_0000_0000) by (nonlinear_arith)
        requires
            pow2(64) == 0x1_0000_0000_0000_0000,
            pow2(20) == 0x10_0000,
    ;
}

/// A power of two below another has the smaller exponent.
proof fn lemma_pow2_exponent_below(low: nat, high: nat)
    requires
        pow2(low) < pow2(high),
    ensures
        low < high,
{
    if low > high {
        lemma_pow2_strictly_increases(high, low);
    }
}

/// The quotient of two whole numbers in binary64 arithmetic, for a quotient
/// of at most one.
pub fn divide(num: u32, den: u32) -> (quotient: Float)
    requires
        0 < num <= den,
    ensures
        quotient@ == round_to_binary64(num as nat, den as nat),
        quotient.wf(),
        quotient.is_normal(),
        quotient.mantissa <= quotient.unit,
        52 <= quotient.places <= 84,
{
    let bound: u128 = (MANTISSA_MIN as u128) * (den as u128);
    let mut scaled: u128 = num as u128;
    let mut unit: u128 = 1;
    let mut places: u32 = 0;
    proof {
        lemma2_to64();
        assert(den <= MANTISSA_MIN * den) by (nonlinear_arith);
    }
    while scaled < bound
        invariant
            0 < num <= den,
            bound == MANTISSA_MIN * den,
            scaled == num * pow2(places as nat),
            unit == pow2(places as nat),
            unit <= scaled < 2 * bound,
            places <= 84,
        decreases 2 * bound - scaled,
    {
        proof {
            lemma_pow2_values();
            lemma_pow2_pos(places as nat);
            assert(MANTISSA_MIN * den < 0x10_0000_0000_0000_0000_0000) by (nonlinear_arith)
                requires
                    den < 0x1_0000_0000,
            ;
            lemma_pow2_exponent_below(places as nat, 84);
            lemma_pow2_unfold((places + 1) as nat);
            assert(num * (2 * pow2(places as nat)) == 2 * (num * pow2(places as nat)))
                by (nonlinear_arith);
        }
        scaled = 2 * scaled;
        unit = 2 * unit;
        places = places + 1;
    }
    let mantissa = nearest(scaled, den as u128);
    proof {
        lemma_pow2_values();
        assert(MANTISSA_MIN * den <= scaled < 2 * MANTISSA_MIN * den) by (nonlinear_arith)
            requires
                bound == MANTISSA_MIN * den,
                bound <= scaled < 2 * bound,
        ;
        lemma_round_bounds(scaled as nat, den as nat, MANTISSA_MIN as nat, (2 * MANTISSA_MIN) as nat);
        assert(0 * den <= scaled <= unit * den) by (nonlinear_arith)
            requires
                scaled == num * unit,
                num <= den,
        ;
        lemma_round_bounds(scaled as nat, den as nat, 0, unit as nat);
        assert(MANTISSA_MIN * num <= num * unit) by (nonlinear_arith)
            requires
                MANTISSA_MIN * den <= num * unit,
                num <= den,
                0 < num,
                unit >= 0,
        ;
        assert(MANTISSA_MIN <= unit) by (nonlinear_arith)
            requires
                MANTISSA_MIN * num <= num * unit,
                0 < num,
        ;
        if places < 52 {
            lemma_pow2_strictly_increases(places as nat, 52);
        }
        lemma_round_to_binary64(num as nat, den as nat, places as nat);
    }
    Float { mantissa: mantissa as u64, unit, places }
}

/// A hundred times a number of at most one, in binary64 arithmetic.
pub fn hundredfold(factor: Float) -> (product: Float)
    requires
        factor.wf(),
        factor.is_normal(),
        factor.mantissa <= factor.unit,
        52 <= factor.places,
    ensures
        product@ == round_to_binary64(100 * factor@.mantissa, factor@.unit),
        product.wf(),
        product.is_normal(),
        product.mantissa <= 100 * product.unit,
        45 <= product.places,
{
    let exact: u64 = 100 * factor.mantissa;
    let (step, dropped): (u64, u32) = if exact < 0x800_0000_0000_0000 {
        (64, 6)
    } else {
        (128, 7)
    };
    let mantissa = nearest(exact as u128, step as u128);
    let unit = factor.unit / (step as u128);
    let places = factor.places - dropped;
    proof {
        lemma_pow2_values();
        lemma_pow2_adds(dropped as nat, places as nat);
        lemma_pow2_pos(places as nat);
        let rest = pow2(places as nat);
        assert(unit == rest) by (nonlinear_arith)
            requires
                factor.unit == step * rest,
                unit == factor.unit / (step as u128),
                step > 0,
        ;
        lemma_round_bounds(
            exact as nat,
            step as nat,
            MANTISSA_MIN as nat,
            (2 * MANTISSA_MIN) as nat,
        );
        assert(0 * step <= exact <= (100 * rest) * step) by (nonlinear_arith)
            requires
                exact == 100 * factor.mantissa,
                factor.mantissa <= factor.unit,
                factor.unit == step * rest,
        ;
        lemma_round_bounds(exact as nat, step as nat, 0, 100 * rest);
        assert(MANTISSA_MIN * factor.unit <= exact * rest < 2 * MANTISSA_MIN * factor.unit)
            by (nonlinear_arith)
            requires
                MANTISSA_MIN * step <= exact < (2 * MANTISSA_MIN) * step,
                factor.unit == step * rest,
                rest > 0,
        ;
        lemma_round_to_binary64(exact as nat, factor.unit as nat, places as nat);
        lemma_round_scaled(exact as nat, step as nat, rest);
    }
    Float { mantissa: mantissa as u64, unit, places }
}

/// The number of tenths nearest to a number of at most a hundred, and the
/// even one where two are equally near.
pub fn tenths(number: Float) -> (rounded: u32)
    requires
        number.wf(),
        number.is_normal(),
        number.mantissa <= 100 * number.unit,
    ensures
        rounded == round_half_even(10 * number@.mantissa, number@.unit),
        rounded <= 1000,
{
    proof {
        lemma_pow2_pos(number.places as nat);
        lemma_round_bounds((10 * number.mantissa) as nat, number.unit as nat, 0, 1000);
    }
    let rounded = nearest(10 * (number.mantissa as u128), number.unit);
    rounded as u32
}

} // verus!
