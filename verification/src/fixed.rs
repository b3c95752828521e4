//! Fixed-point micro-unit arithmetic shared by the whole library.
//!
//! A quantity `x` (a probability, a price in USDC, a size in contracts)
//! is stored as the integer `x * 1_000_000`, so one micro-unit is `1e-6`.
//! `SCALE` is that factor.  All domain math is done on these integers;
//! every rounding step is stated explicitly in the contracts.

use vstd::prelude::*;

verus! {

/// Number of micro-units in one whole unit.
pub const SCALE: u64 = 1_000_000;

/// Half of one whole unit, in micro-units.
pub const HALF_SCALE: u64 = 500_000;

/// Micro-units in one cent (two-decimal step used at the order boundary).
pub const CENT: u64 = 10_000;

/// `floor(a * b / SCALE)` over the mathematical integers.
pub open spec fn spec_mul_units(a: int, b: int) -> int {
    a * b / (SCALE as int)
}

/// `floor(a * SCALE / b)` over the mathematical integers.
pub open spec fn spec_div_units(a: int, b: int) -> int {
    a * (SCALE as int) / b
}

proof fn lemma_u64_product_fits_u128(a: u64, b: u64)
    ensures
        (a as int) * (b as int) <= u128::MAX,
{
    assert((a as int) * (b as int) <= (u64::MAX as int) * (u64::MAX as int))
        by (nonlinear_arith)
        requires
            a <= u64::MAX,
            b <= u64::MAX,
    ;
}

/// Product of two micro-unit quantities, `floor(a * b / SCALE)`.
///
/// When `b <= SCALE` (a fraction of one), the result never exceeds `a`,
/// so no precondition beyond that bound is needed.
pub fn mul_units(a: u64, b: u64) -> (r: u64)
    requires
        spec_mul_units(a as int, b as int) <= u64::MAX,
    ensures
        r == spec_mul_units(a as int, b as int),
{
    proof {
        lemma_u64_product_fits_u128(a, b);
    }
    let wide: u128 = (a as u128) * (b as u128);
    let q: u128 = wide / (SCALE as u128);
    q as u64
}

/// Multiplying by a fraction (`b <= SCALE`) never grows the operand.
pub proof fn lemma_mul_units_fraction(a: int, b: int)
    requires
        0 <= a,
        0 <= b <= SCALE,
    ensures
        0 <= spec_mul_units(a, b) <= a,
{
    assert(a * b / (SCALE as int) <= a && a * b / (SCALE as int) >= 0)
        by (nonlinear_arith)
        requires
            0 <= a,
            0 <= b <= SCALE,
    ;
}

/// `spec_mul_units` is monotone in its first argument.
pub proof fn lemma_mul_units_monotone(a1: int, a2: int, b: int)
    requires
        0 <= a1 <= a2,
        0 <= b,
    ensures
        spec_mul_units(a1, b) <= spec_mul_units(a2, b),
{
    assert(a1 * b / (SCALE as int) <= a2 * b / (SCALE as int))
        by (nonlinear_arith)
        requires
            0 <= a1 <= a2,
            0 <= b,
    ;
}

/// Ratio of two micro-unit quantities, `floor(a * SCALE / b)`.
pub fn div_units(a: u64, b: u64) -> (r: u64)
    requires
        b >= 1,
        spec_div_units(a as int, b as int) <= u64::MAX,
    ensures
        r == spec_div_units(a as int, b as int),
{
    proof {
        lemma_u64_product_fits_u128(a, SCALE);
    }
    let wide: u128 = (a as u128) * (SCALE as u128);
    let q: u128 = wide / (b as u128);
    q as u64
}

/// `ceil(a * b / SCALE)` over the mathematical integers.
pub open spec fn spec_mul_units_up(a: int, b: int) -> int {
    (a * b + (SCALE - 1)) / (SCALE as int)
}

/// Product of two micro-unit quantities, rounded up.
pub fn mul_units_up(a: u64, b: u64) -> (r: u64)
    requires
        spec_mul_units_up(a as int, b as int) <= u64::MAX,
    ensures
        r == spec_mul_units_up(a as int, b as int),
{
    proof {
        lemma_u64_product_fits_u128(a, b);
    }
    let wide: u128 = (a as u128) * (b as u128) + ((SCALE - 1) as u128);
    let q: u128 = wide / (SCALE as u128);
    q as u64
}

/// Rounding a product up by a fraction stays within `[0, a]` and reaches 0
/// only when the exact product is 0.
pub proof fn lemma_mul_units_up_fraction(a: int, b: int)
    requires
        0 <= a,
        0 <= b <= SCALE,
    ensures
        0 <= spec_mul_units_up(a, b) <= a,
        a >= 1 && b >= 1 ==> spec_mul_units_up(a, b) >= 1,
{
    assert((a * b + (SCALE - 1)) / (SCALE as int) <= a
        && (a * b + (SCALE - 1)) / (SCALE as int) >= 0
        && (a >= 1 && b >= 1 ==> (a * b + (SCALE - 1)) / (SCALE as int) >= 1))
        by (nonlinear_arith)
        requires
            0 <= a,
            0 <= b <= SCALE,
    ;
}

/// Largest multiple of `step` that is at most `x`.
pub open spec fn spec_floor_to_step(x: int, step: int) -> int {
    x - x % step
}

/// Truncate `x` down to a multiple of `step`.
pub fn floor_to_step(x: u64, step: u64) -> (r: u64)
    requires
        step >= 1,
    ensures
        r == spec_floor_to_step(x as int, step as int),
        r <= x,
        r % step == 0,
{
    proof {
        lemma_div_mod_shape(x as int, step as int);
    }
    let rem: u64 = x % step;
    x - rem
}

/// Shape facts about division with remainder for non-negative operands.
pub proof fn lemma_div_mod_shape(x: int, step: int)
    requires
        x >= 0,
        step >= 1,
    ensures
        0 <= x % step <= x,
        x % step < step,
        x - x % step == (x / step) * step,
        (x - x % step) % step == 0,
        0 <= (x / step) * step <= x,
        (x / step) * step + step > x,
{
    assert(0 <= x % step <= x && x % step < step
        && x - x % step == (x / step) * step
        && (x - x % step) % step == 0
        && 0 <= (x / step) * step <= x
        && (x / step) * step + step > x)
        by (nonlinear_arith)
        requires
            x >= 0,
            step >= 1,
    ;
}

/// Flooring to a step is monotone.
pub proof fn lemma_floor_to_step_monotone(x1: int, x2: int, step: int)
    requires
        0 <= x1 <= x2,
        step >= 1,
    ensures
        spec_floor_to_step(x1, step) <= spec_floor_to_step(x2, step),
{
    lemma_div_mod_shape(x1, step);
    lemma_div_mod_shape(x2, step);
    assert((x1 / step) * step <= (x2 / step) * step) by (nonlinear_arith)
        requires
            0 <= x1 <= x2,
            step >= 1,
    ;
}

/// Round `x` to the nearest multiple of `step`, ties to the even multiple.
pub open spec fn spec_round_half_even(x: int, step: int) -> int
    recommends
        step >= 2,
{
    let q = x / step;
    let rem = x % step;
    if 2 * rem < step {
        q * step
    } else if 2 * rem > step {
        (q + 1) * step
    } else if q % 2 == 0 {
        q * step
    } else {
        (q + 1) * step
    }
}

/// Round `x` to the nearest multiple of `step`, half to even
/// (banker's rounding, as used for two-decimal boundary values).
pub fn round_half_even(x: u64, step: u64) -> (r: u64)
    requires
        step >= 2,
        x + step <= u64::MAX,
    ensures
        r == spec_round_half_even(x as int, step as int),
        x <= r + step,
        r <= x + step,
{
    proof {
        lemma_div_mod_shape(x as int, step as int);
    }
    let q: u64 = x / step;
    let rem: u64 = x % step;
    let rem2: u128 = 2 * (rem as u128);
    if rem2 < step as u128 {
        q * step
    } else if rem2 > step as u128 {
        proof {
            assert((q + 1) * (step as int) == q * (step as int) + step) by (nonlinear_arith);
        }
        q * step + step
    } else if q % 2 == 0 {
        q * step
    } else {
        proof {
            assert((q + 1) * (step as int) == q * (step as int) + step) by (nonlinear_arith);
        }
        q * step + step
    }
}

} // verus!
