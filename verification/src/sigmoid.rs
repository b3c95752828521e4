//! Fixed-point logistic squashing used by the LMSR pricer and the
//! probability estimator.
//!
//! The curve is the rational sigmoid `1/2 + x / (2 * (1 + |x|))`: it maps
//! the whole line into the open unit interval, is strictly monotone,
//! symmetric about one half, and needs only integer multiplication and
//! division.  Arguments are signed micro-units passed as a sign flag and
//! a magnitude.

use vstd::prelude::*;

use crate::fixed::{HALF_SCALE, SCALE};

verus! {

/// Deviation from one half for an argument of magnitude `mag`:
/// `mag * SCALE / (2 * (SCALE + mag))`, always in `[0, HALF_SCALE)`.
pub open spec fn spec_sigmoid_dev(mag: int) -> int {
    mag * (SCALE as int) / (2 * (SCALE + mag))
}

/// The sigmoid value in micro-units for a signed argument given as a
/// sign and a magnitude.
pub open spec fn spec_sigmoid(neg: bool, mag: int) -> int {
    if neg {
        HALF_SCALE - spec_sigmoid_dev(mag)
    } else {
        HALF_SCALE + spec_sigmoid_dev(mag)
    }
}

/// The deviation stays strictly below one half and vanishes at zero.
pub proof fn lemma_sigmoid_dev_bounds(mag: int)
    requires
        mag >= 0,
    ensures
        0 <= spec_sigmoid_dev(mag) < HALF_SCALE,
        mag == 0 ==> spec_sigmoid_dev(mag) == 0,
{
    assert(0 <= mag * (SCALE as int) / (2 * (SCALE + mag)) < HALF_SCALE)
        by (nonlinear_arith)
        requires
            mag >= 0,
    ;
}

/// Division compared across two fractions: if `a1/d1 <= a2/d2` as
/// rationals (cross-multiplied), the floors are ordered the same way.
pub proof fn lemma_div_cross_monotone(a1: int, d1: int, a2: int, d2: int)
    requires
        0 <= a1,
        0 <= a2,
        d1 >= 1,
        d2 >= 1,
        a1 * d2 <= a2 * d1,
    ensures
        a1 / d1 <= a2 / d2,
{
    let q1 = a1 / d1;
    assert(q1 * d1 <= a1 && q1 >= 0) by (nonlinear_arith)
        requires
            0 <= a1,
            d1 >= 1,
            q1 == a1 / d1,
    ;
    assert(q1 * d1 * d2 <= a1 * d2) by (nonlinear_arith)
        requires
            q1 * d1 <= a1,
            d2 >= 1,
    ;
    assert(q1 * d2 * d1 <= a2 * d1) by (nonlinear_arith)
        requires
            q1 * d1 * d2 <= a1 * d2,
            a1 * d2 <= a2 * d1,
    ;
    assert(q1 * d2 <= a2) by (nonlinear_arith)
        requires
            q1 * d2 * d1 <= a2 * d1,
            d1 >= 1,
    ;
    assert(q1 <= a2 / d2) by (nonlinear_arith)
        requires
            q1 * d2 <= a2,
            d2 >= 1,
            q1 >= 0,
    ;
}

/// The deviation grows with the magnitude.
pub proof fn lemma_sigmoid_dev_monotone(mag1: int, mag2: int)
    requires
        0 <= mag1 <= mag2,
    ensures
        spec_sigmoid_dev(mag1) <= spec_sigmoid_dev(mag2),
{
    assert(mag1 * (SCALE as int) * (2 * (SCALE + mag2))
        <= mag2 * (SCALE as int) * (2 * (SCALE + mag1)))
        by (nonlinear_arith)
        requires
            0 <= mag1 <= mag2,
    ;
    lemma_div_cross_monotone(
        mag1 * (SCALE as int),
        2 * (SCALE + mag1),
        mag2 * (SCALE as int),
        2 * (SCALE + mag2),
    );
}

/// The sigmoid stays strictly inside the open unit interval, sits at one
/// half for a zero argument, and is symmetric: flipping the sign mirrors
/// the value about one half.
pub proof fn lemma_sigmoid_shape(neg: bool, mag: int)
    requires
        mag >= 0,
    ensures
        0 < spec_sigmoid(neg, mag) < SCALE,
        mag == 0 ==> spec_sigmoid(neg, mag) == HALF_SCALE,
        spec_sigmoid(!neg, mag) == SCALE - spec_sigmoid(neg, mag),
{
    lemma_sigmoid_dev_bounds(mag);
}

/// Compute the sigmoid of a signed argument (sign flag plus magnitude in
/// micro-units).
pub fn sigmoid_units(neg: bool, mag: u64) -> (r: u64)
    ensures
        r == spec_sigmoid(neg, mag as int),
        0 < r < SCALE,
{
    proof {
        lemma_sigmoid_dev_bounds(mag as int);
    }
    let numerator: u128 = (mag as u128) * (SCALE as u128);
    let denominator: u128 = 2 * ((SCALE as u128) + (mag as u128));
    let dev: u64 = (numerator / denominator) as u64;
    if neg {
        HALF_SCALE - dev
    } else {
        HALF_SCALE + dev
    }
}

} // verus!
