//! Logarithmic Market Scoring Rule pricing for binary outcome markets.
//!
//! Quantities are signed micro-shares; the liquidity parameter `b` is a
//! positive micro-unit value.  The marginal YES price is the logistic
//! curve of `(q_yes - q_no) / b`, computed in fixed point; the NO price
//! is the YES price of the mirrored market, and the two always sum to
//! exactly one.  The cost function uses the log-sum-exp form
//! `max(q_yes, q_no) + b * softplus(|q_yes - q_no| / b)`, with the
//! softplus falling from `ln 2` at zero toward zero.

use vstd::prelude::*;

use crate::fixed::{mul_units, spec_mul_units, HALF_SCALE, SCALE};
use crate::sigmoid::{
    lemma_sigmoid_dev_bounds, lemma_sigmoid_dev_monotone, lemma_sigmoid_shape, sigmoid_units,
    spec_sigmoid,
};

verus! {

/// `ln 2` in micro-units.
pub const LN2_UNITS: u64 = 693_147;

/// Cap on the logistic argument magnitude; the price is within one
/// micro-unit of an endpoint long before the cap binds.
pub const PRICE_MAG_CAP: u64 = 1_000_000_000_000;

/// The scaled argument magnitude `|q_yes - q_no| * SCALE / b`, saturated
/// at the cap.
pub open spec fn spec_arg_mag(q_yes: int, q_no: int, b: int) -> int {
    let diff = if q_yes >= q_no { q_yes - q_no } else { q_no - q_yes };
    let mag = diff * (SCALE as int) / b;
    if mag > PRICE_MAG_CAP {
        PRICE_MAG_CAP as int
    } else {
        mag
    }
}

/// Marginal YES price in micro-units.
pub open spec fn spec_price_yes(q_yes: int, q_no: int, b: int) -> int {
    spec_sigmoid(q_yes < q_no, spec_arg_mag(q_yes, q_no, b))
}

/// The softplus factor `LN2 * SCALE / (SCALE + t)` in micro-units,
/// falling from `ln 2` at `t == 0` toward zero.
pub open spec fn spec_softplus(t: int) -> int {
    (LN2_UNITS as int) * (SCALE as int) / ((SCALE as int) + t)
}

/// The LMSR cost in signed micro-units:
/// `max(q_yes, q_no) + b * softplus(|q_yes - q_no| * SCALE / b)`.
pub open spec fn spec_cost(q_yes: int, q_no: int, b: int) -> int {
    let hi = if q_yes >= q_no { q_yes } else { q_no };
    let diff = if q_yes >= q_no { q_yes - q_no } else { q_no - q_yes };
    hi + spec_mul_units(b, spec_softplus(diff * (SCALE as int) / b))
}

/// The argument magnitude is non-negative, within the cap, and the same
/// for the mirrored market.
proof fn lemma_arg_mag_shape(q_yes: int, q_no: int, b: int)
    requires
        b >= 1,
    ensures
        0 <= spec_arg_mag(q_yes, q_no, b) <= PRICE_MAG_CAP,
        spec_arg_mag(q_yes, q_no, b) == spec_arg_mag(q_no, q_yes, b),
{
    let diff = if q_yes >= q_no { q_yes - q_no } else { q_no - q_yes };
    assert(diff * (SCALE as int) / b >= 0) by (nonlinear_arith)
        requires
            diff >= 0,
            b >= 1,
    ;
}

/// The softplus factor lies in `(0, LN2]` for non-negative arguments and
/// equals `ln 2` exactly at zero.
proof fn lemma_softplus_bounds(t: int)
    requires
        t >= 0,
    ensures
        0 <= spec_softplus(t) <= LN2_UNITS,
        t == 0 ==> spec_softplus(t) == LN2_UNITS,
{
    assert(0 <= (LN2_UNITS as int) * (SCALE as int) / ((SCALE as int) + t) <= LN2_UNITS
        && (LN2_UNITS as int) * (SCALE as int) / ((SCALE as int) + 0) == LN2_UNITS)
        by (nonlinear_arith)
        requires
            t >= 0,
    ;
}

/// LMSR model over a binary market with liquidity parameter `b`.
#[derive(Debug, Clone)]
pub struct LmsrModel {
    /// Liquidity parameter in micro-units; always positive.
    pub b: u64,
}

impl LmsrModel {
    /// The liquidity parameter is positive.
    pub open spec fn well_formed(self) -> bool {
        self.b >= 1
    }

    /// Creates a model with the given liquidity parameter.
    pub fn new(b: u64) -> (r: LmsrModel)
        requires
            b >= 1,
        ensures
            r.well_formed(),
            r.b == b,
    {
        LmsrModel { b }
    }

    /// The liquidity parameter.
    pub fn liquidity(&self) -> (r: u64)
        ensures
            r == self.b,
    {
        self.b
    }

    /// The marginal price of the YES outcome, strictly inside the unit
    /// interval.
    pub fn price_yes(&self, q_yes: i64, q_no: i64) -> (r: u64)
        requires
            self.well_formed(),
        ensures
            r == spec_price_yes(q_yes as int, q_no as int, self.b as int),
            0 < r < SCALE,
    {
        proof {
            lemma_arg_mag_shape(q_yes as int, q_no as int, self.b as int);
        }
        let neg: bool = q_yes < q_no;
        let diff: u128 = if q_yes >= q_no {
            (q_yes as i128 - q_no as i128) as u128
        } else {
            (q_no as i128 - q_yes as i128) as u128
        };
        let scaled: u128 = diff * (SCALE as u128) / (self.b as u128);
        let mag: u64 = if scaled > PRICE_MAG_CAP as u128 {
            PRICE_MAG_CAP
        } else {
            scaled as u64
        };
        sigmoid_units(neg, mag)
    }

    /// The marginal price of the NO outcome: the YES price of the
    /// mirrored market, which complements the YES price to exactly one.
    pub fn price_no(&self, q_yes: i64, q_no: i64) -> (r: u64)
        requires
            self.well_formed(),
        ensures
            r == spec_price_yes(q_no as int, q_yes as int, self.b as int),
            r == SCALE - spec_price_yes(q_yes as int, q_no as int, self.b as int),
            0 < r < SCALE,
    {
        proof {
            lemma_prices_sum_to_one(q_yes as int, q_no as int, self.b as int);
        }
        let yes: u64 = self.price_yes(q_yes, q_no);
        SCALE - yes
    }

    /// The LMSR cost of the state `(q_yes, q_no)`, in signed
    /// micro-units.
    pub fn cost(&self, q_yes: i64, q_no: i64) -> (r: i64)
        requires
            self.well_formed(),
            q_yes + self.b <= i64::MAX,
            q_no + self.b <= i64::MAX,
        ensures
            r == spec_cost(q_yes as int, q_no as int, self.b as int),
            ({
                let hi = if q_yes >= q_no { q_yes as int } else { q_no as int };
                hi <= r <= hi + self.b
            }),
    {
        let hi: i64 = if q_yes >= q_no { q_yes } else { q_no };
        let diff: u128 = if q_yes >= q_no {
            (q_yes as i128 - q_no as i128) as u128
        } else {
            (q_no as i128 - q_yes as i128) as u128
        };
        proof {
            let d = diff as int;
            assert(d * (SCALE as int) <= 0x2_0000_0000_0000_0000 * (SCALE as int)
                && d * (SCALE as int) / (self.b as int) <= d * (SCALE as int)
                && d * (SCALE as int) / (self.b as int) >= 0)
                by (nonlinear_arith)
                requires
                    0 <= d <= 0x2_0000_0000_0000_0000,
                    self.b >= 1,
            ;
        }
        let scaled_wide: u128 = diff * (SCALE as u128) / (self.b as u128);
        let sp: u64 = softplus_units(scaled_wide);
        proof {
            crate::fixed::lemma_mul_units_fraction(self.b as int, sp as int);
        }
        let bump: u64 = mul_units(self.b, sp);
        let wide: i128 = (hi as i128) + (bump as i128);
        wide as i64
    }

    /// Cost of buying `delta` YES shares from the state `(q_yes, q_no)`.
    pub fn cost_to_buy_yes(&self, q_yes: i64, q_no: i64, delta: i64) -> (r: i64)
        requires
            self.well_formed(),
            delta >= 0,
            q_yes + delta + self.b <= i64::MAX,
            q_no + self.b <= i64::MAX,
            delta + self.b <= i64::MAX,
        ensures
            r == spec_cost(q_yes + delta, q_no as int, self.b as int)
                - spec_cost(q_yes as int, q_no as int, self.b as int),
    {
        let after: i64 = self.cost(q_yes + delta, q_no);
        let before: i64 = self.cost(q_yes, q_no);
        let wide: i128 = (after as i128) - (before as i128);
        wide as i64
    }

    /// Cost of buying `delta` NO shares from the state `(q_yes, q_no)`.
    pub fn cost_to_buy_no(&self, q_yes: i64, q_no: i64, delta: i64) -> (r: i64)
        requires
            self.well_formed(),
            delta >= 0,
            q_no + delta + self.b <= i64::MAX,
            q_yes + self.b <= i64::MAX,
            delta + self.b <= i64::MAX,
        ensures
            r == spec_cost(q_yes as int, q_no + delta, self.b as int)
                - spec_cost(q_yes as int, q_no as int, self.b as int),
    {
        let after: i64 = self.cost(q_yes, q_no + delta);
        let before: i64 = self.cost(q_yes, q_no);
        let wide: i128 = (after as i128) - (before as i128);
        wide as i64
    }

    /// Relative dislocation between an external fair YES price and the
    /// market's YES price, in percent micro-units:
    /// `|fair - market| * 100 * SCALE / market`.
    pub fn detect_edge(&self, market_price_yes: u64, fair_price_yes: u64) -> (r: u64)
        requires
            1 <= market_price_yes <= SCALE,
            fair_price_yes <= SCALE,
        ensures
            ({
                let diff: int = if fair_price_yes >= market_price_yes {
                    fair_price_yes - market_price_yes
                } else {
                    market_price_yes - fair_price_yes
                };
                r == diff * 100 * (SCALE as int) / (market_price_yes as int)
            }),
    {
        let diff: u64 = if fair_price_yes >= market_price_yes {
            fair_price_yes - market_price_yes
        } else {
            market_price_yes - fair_price_yes
        };
        proof {
            assert((diff as int) * 100 * (SCALE as int) / (market_price_yes as int)
                <= (diff as int) * 100 * (SCALE as int)) by (nonlinear_arith)
                requires
                    0 <= diff,
                    1 <= market_price_yes,
            ;
        }
        let wide: u128 = (diff as u128) * 100 * (SCALE as u128) / (market_price_yes as u128);
        wide as u64
    }
}

/// Compute the softplus factor for a non-negative scaled argument.
fn softplus_units(t: u128) -> (r: u64)
    requires
        t + SCALE <= u128::MAX,
    ensures
        r == spec_softplus(t as int),
        r <= LN2_UNITS,
{
    proof {
        lemma_softplus_bounds(t as int);
    }
    let num: u128 = (LN2_UNITS as u128) * (SCALE as u128);
    (num / ((SCALE as u128) + t)) as u64
}

/// The YES and NO prices of a binary LMSR market always sum to exactly
/// one: `price_yes(q_yes, q_no) + price_yes(q_no, q_yes) == SCALE`.
pub proof fn lemma_prices_sum_to_one(q_yes: int, q_no: int, b: int)
    requires
        b >= 1,
    ensures
        spec_price_yes(q_yes, q_no, b) + spec_price_yes(q_no, q_yes, b) == SCALE,
        0 < spec_price_yes(q_yes, q_no, b) < SCALE,
{
    lemma_arg_mag_shape(q_yes, q_no, b);
    let mag = spec_arg_mag(q_yes, q_no, b);
    lemma_sigmoid_shape(q_yes < q_no, mag);
    if q_yes == q_no {
        lemma_sigmoid_dev_bounds(mag);
    } else {
        assert((q_no < q_yes) == !(q_yes < q_no));
    }
}

/// The YES price is monotone in the YES quantity: adding YES shares
/// never lowers the marginal YES price.
pub proof fn lemma_price_yes_monotone(q1: int, q2: int, q_no: int, b: int)
    requires
        b >= 1,
        q1 <= q2,
    ensures
        spec_price_yes(q1, q_no, b) <= spec_price_yes(q2, q_no, b),
{
    lemma_arg_mag_shape(q1, q_no, b);
    lemma_arg_mag_shape(q2, q_no, b);
    let m1 = spec_arg_mag(q1, q_no, b);
    let m2 = spec_arg_mag(q2, q_no, b);
    lemma_sigmoid_dev_bounds(m1);
    lemma_sigmoid_dev_bounds(m2);
    if q2 <= q_no {
        // Both on or below the midpoint: the magnitude shrinks.
        assert((q_no - q2) * (SCALE as int) / b <= (q_no - q1) * (SCALE as int) / b)
            by (nonlinear_arith)
            requires
                q1 <= q2 <= q_no,
                b >= 1,
        ;
        lemma_sigmoid_dev_monotone(if m2 <= m1 { m2 } else { m1 }, if m2 <= m1 { m1 } else { m2 });
        if q1 < q_no {
            assert(spec_price_yes(q1, q_no, b) <= spec_price_yes(q2, q_no, b));
        }
    } else if q1 >= q_no {
        // Both on or above the midpoint: the magnitude grows.
        assert((q1 - q_no) * (SCALE as int) / b <= (q2 - q_no) * (SCALE as int) / b)
            by (nonlinear_arith)
            requires
                q_no <= q1 <= q2,
                b >= 1,
        ;
        lemma_sigmoid_dev_monotone(if m1 <= m2 { m1 } else { m2 }, if m1 <= m2 { m2 } else { m1 });
    } else {
        // The two sit on opposite sides of the midpoint.
        assert(spec_price_yes(q1, q_no, b) <= HALF_SCALE);
        assert(spec_price_yes(q2, q_no, b) >= HALF_SCALE);
    }
}

/// Fair-price helper exposed to the pricing pipeline: in the reduced
/// market-making mode the fair YES price is the estimated probability
/// itself, clamped away from the endpoints.
#[derive(Debug, Clone)]
pub struct LmsrPricer {
    /// The underlying model.
    pub model: LmsrModel,
}

/// The fair price for an estimated probability: the probability clamped
/// to `[0.01, 0.99]` in micro-units.
pub open spec fn spec_fair_price(p: int) -> int {
    if p < 10_000 {
        10_000
    } else if p > 990_000 {
        990_000
    } else {
        p
    }
}

impl LmsrPricer {
    /// Create a pricer with the given liquidity parameter.
    pub fn new(liquidity: u64) -> (r: LmsrPricer)
        requires
            liquidity >= 1,
        ensures
            r.model.well_formed(),
            r.model.b == liquidity,
    {
        LmsrPricer { model: LmsrModel::new(liquidity) }
    }

    /// Fair YES price from an estimated probability, clamped to
    /// `[0.01, 0.99]`: at equilibrium the LMSR price equals the
    /// probability.
    pub fn price(&self, estimated_prob: u64) -> (r: u64)
        ensures
            r == spec_fair_price(estimated_prob as int),
            10_000 <= r <= 990_000,
    {
        if estimated_prob < 10_000 {
            10_000
        } else if estimated_prob > 990_000 {
            990_000
        } else {
            estimated_prob
        }
    }

    /// Relative dislocation `|fair - market| * SCALE / market` in
    /// micro-units.
    pub fn detect_edge(&self, market_price: u64, fair_price: u64) -> (r: u64)
        requires
            1 <= market_price <= SCALE,
            fair_price <= SCALE,
        ensures
            ({
                let diff: int = if fair_price >= market_price {
                    fair_price - market_price
                } else {
                    market_price - fair_price
                };
                r == diff * (SCALE as int) / (market_price as int)
            }),
    {
        let diff: u64 = if fair_price >= market_price {
            fair_price - market_price
        } else {
            market_price - fair_price
        };
        proof {
            assert((diff as int) * (SCALE as int) / (market_price as int)
                <= (diff as int) * (SCALE as int)) by (nonlinear_arith)
                requires
                    0 <= diff,
                    1 <= market_price,
            ;
        }
        let wide: u128 = (diff as u128) * (SCALE as u128) / (market_price as u128);
        wide as u64
    }

    /// Access the underlying model.
    pub fn model(&self) -> (r: &LmsrModel)
        ensures
            r == &self.model,
    {
        &self.model
    }
}

/// The fair price is monotone in the estimated probability.
pub proof fn lemma_fair_price_monotone(p1: int, p2: int)
    requires
        p1 <= p2,
    ensures
        spec_fair_price(p1) <= spec_fair_price(p2),
{
}

} // verus!
