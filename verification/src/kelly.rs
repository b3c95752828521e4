//! Fractional Kelly position sizing for binary outcomes.
//!
//! For win probability `p` and market price `m` (both micro-units), the
//! full Kelly fraction of bankroll is `(p - m) / (1 - m)` when `p > m`
//! and zero otherwise; it is scaled by the configured fraction and capped
//! by the maximum position fraction.  Dollar sizes are floored to the
//! cent.

use vstd::prelude::*;

use crate::fixed::{
    div_units, floor_to_step, mul_units, spec_div_units, spec_floor_to_step, spec_mul_units, CENT,
    SCALE,
};

verus! {

/// Full Kelly fraction in micro-units: `(p - m) * SCALE / (SCALE - m)`
/// when the edge is positive and the price lies inside the unit
/// interval, else zero.
pub open spec fn spec_full_kelly(p: int, m: int) -> int {
    if m <= 0 || m >= SCALE || p <= m {
        0
    } else {
        spec_div_units(p - m, SCALE - m)
    }
}

/// The sized fraction: full Kelly scaled by `fraction`, capped at
/// `max_fraction`.
pub open spec fn spec_kelly_fraction(p: int, m: int, fraction: int, max_fraction: int) -> int {
    let sized = spec_mul_units(spec_full_kelly(p, m), fraction);
    if sized <= max_fraction {
        sized
    } else {
        max_fraction
    }
}

/// The dollar size: bankroll times the sized fraction, floored to the
/// cent.
pub open spec fn spec_kelly_size(
    bankroll: int,
    p: int,
    m: int,
    fraction: int,
    max_fraction: int,
) -> int {
    spec_floor_to_step(
        spec_mul_units(bankroll, spec_kelly_fraction(p, m, fraction, max_fraction)),
        CENT as int,
    )
}

/// The full Kelly fraction of a probability is itself at most one.
proof fn lemma_full_kelly_bounds(p: int, m: int)
    requires
        0 <= p <= SCALE,
    ensures
        0 <= spec_full_kelly(p, m) <= SCALE,
{
    if 0 < m < SCALE && p > m {
        assert(0 <= (p - m) * (SCALE as int) / (SCALE - m) <= SCALE)
            by (nonlinear_arith)
            requires
                0 < m < SCALE,
                m < p <= SCALE,
        ;
    }
}

/// Kelly criterion calculator.  `fraction` scales the full Kelly bet
/// (250_000 micro-units is quarter-Kelly); `max_position_fraction` caps
/// the bet as a fraction of bankroll.
#[derive(Debug, Clone)]
pub struct KellyCriterion {
    /// Kelly fraction multiplier in micro-units.
    pub fraction: u64,
    /// Maximum position as a fraction of bankroll, micro-units.
    pub max_position_fraction: u64,
}

impl KellyCriterion {
    /// Both knobs are fractions of one, and the multiplier is positive.
    pub open spec fn well_formed(self) -> bool {
        &&& 0 < self.fraction <= SCALE
        &&& self.max_position_fraction <= SCALE
    }

    /// Creates a Kelly calculator with the given fraction and cap.
    pub fn new(fraction: u64, max_position_fraction: u64) -> (r: KellyCriterion)
        requires
            0 < fraction <= SCALE,
            max_position_fraction <= SCALE,
        ensures
            r.well_formed(),
            r.fraction == fraction,
            r.max_position_fraction == max_position_fraction,
    {
        KellyCriterion { fraction, max_position_fraction }
    }

    /// The fraction of bankroll to bet for win probability
    /// `estimated_prob` against price `market_price`.  Zero whenever the
    /// probability gives no edge over the price or the price lies
    /// outside the unit interval.
    pub fn optimal_fraction(&self, estimated_prob: u64, market_price: u64) -> (r: u64)
        requires
            self.well_formed(),
            estimated_prob <= SCALE,
        ensures
            r == spec_kelly_fraction(
                estimated_prob as int,
                market_price as int,
                self.fraction as int,
                self.max_position_fraction as int,
            ),
            r <= self.max_position_fraction,
            estimated_prob <= market_price ==> r == 0,
    {
        if market_price == 0 || market_price >= SCALE {
            return 0;
        }
        if estimated_prob <= market_price {
            return 0;
        }
        proof {
            lemma_full_kelly_bounds(estimated_prob as int, market_price as int);
        }
        let full: u64 = div_units(estimated_prob - market_price, SCALE - market_price);
        proof {
            crate::fixed::lemma_mul_units_fraction(full as int, self.fraction as int);
        }
        let sized: u64 = mul_units(full, self.fraction);
        if sized <= self.max_position_fraction {
            sized
        } else {
            self.max_position_fraction
        }
    }

    /// The position size in micro-USDC for the given bankroll, floored
    /// to the cent.
    pub fn position_size_usdc(
        &self,
        bankroll: u64,
        estimated_prob: u64,
        market_price: u64,
    ) -> (r: u64)
        requires
            self.well_formed(),
            estimated_prob <= SCALE,
        ensures
            r == spec_kelly_size(
                bankroll as int,
                estimated_prob as int,
                market_price as int,
                self.fraction as int,
                self.max_position_fraction as int,
            ),
            r <= bankroll,
            estimated_prob <= market_price ==> r == 0,
    {
        let fraction: u64 = self.optimal_fraction(estimated_prob, market_price);
        proof {
            crate::fixed::lemma_mul_units_fraction(bankroll as int, fraction as int);
            if estimated_prob <= market_price {
                assert((bankroll as int) * 0 / (SCALE as int) == 0);
            }
        }
        let raw: u64 = mul_units(bankroll, fraction);
        floor_to_step(raw, CENT)
    }
}

impl Default for KellyCriterion {
    /// Quarter-Kelly with a 6.25 % maximum position.
    fn default() -> (r: KellyCriterion)
        ensures
            r.well_formed(),
            r.fraction == 250_000,
            r.max_position_fraction == 62_500,
    {
        KellyCriterion { fraction: 250_000, max_position_fraction: 62_500 }
    }
}

/// The Kelly size always lies in `[0, bankroll * max_fraction]`, and is
/// zero whenever the estimated probability gives no edge over the price.
pub proof fn lemma_kelly_size_bounds(k: KellyCriterion, bankroll: int, p: int, m: int)
    requires
        k.well_formed(),
        0 <= bankroll,
        0 <= p <= SCALE,
    ensures
        0 <= spec_kelly_size(bankroll, p, m, k.fraction as int, k.max_position_fraction as int)
            <= spec_mul_units(bankroll, k.max_position_fraction as int),
        p <= m ==> spec_kelly_size(
            bankroll,
            p,
            m,
            k.fraction as int,
            k.max_position_fraction as int,
        ) == 0,
{
    let frac = spec_kelly_fraction(p, m, k.fraction as int, k.max_position_fraction as int);
    lemma_full_kelly_bounds(p, m);
    crate::fixed::lemma_mul_units_fraction(spec_full_kelly(p, m), k.fraction as int);
    assert(0 <= frac <= k.max_position_fraction);
    crate::fixed::lemma_mul_units_monotone(frac, k.max_position_fraction as int, bankroll);
    assert(spec_mul_units(frac, bankroll) == spec_mul_units(bankroll, frac))
        by (nonlinear_arith)
    ;
    assert(spec_mul_units(k.max_position_fraction as int, bankroll)
        == spec_mul_units(bankroll, k.max_position_fraction as int))
        by (nonlinear_arith)
    ;
    crate::fixed::lemma_mul_units_fraction(bankroll, frac);
    let raw = spec_mul_units(bankroll, frac);
    crate::fixed::lemma_div_mod_shape(raw, CENT as int);
    if p <= m {
        assert(frac == 0);
        assert(bankroll * 0 / (SCALE as int) == 0);
    }
}

/// Scaling down the Kelly multiplier never grows the bet: with the same
/// cap, a smaller fraction (for example quarter-Kelly against full
/// Kelly) gives a size that is at most the larger fraction's size.
pub proof fn lemma_fractional_kelly_monotone(
    bankroll: int,
    p: int,
    m: int,
    frac_small: int,
    frac_large: int,
    max_fraction: int,
)
    requires
        0 <= bankroll,
        0 <= p <= SCALE,
        0 <= frac_small <= frac_large <= SCALE,
        0 <= max_fraction,
    ensures
        spec_kelly_size(bankroll, p, m, frac_small, max_fraction)
            <= spec_kelly_size(bankroll, p, m, frac_large, max_fraction),
{
    let full = spec_full_kelly(p, m);
    lemma_full_kelly_bounds(p, m);
    assert(spec_mul_units(full, frac_small) <= spec_mul_units(full, frac_large))
        by (nonlinear_arith)
        requires
            0 <= full,
            0 <= frac_small <= frac_large,
    ;
    crate::fixed::lemma_mul_units_fraction(full, frac_small);
    let fs = spec_kelly_fraction(p, m, frac_small, max_fraction);
    let fl = spec_kelly_fraction(p, m, frac_large, max_fraction);
    assert(fs <= fl);
    crate::fixed::lemma_mul_units_monotone(fs, fl, bankroll);
    assert(spec_mul_units(fs, bankroll) == spec_mul_units(bankroll, fs)) by (nonlinear_arith);
    assert(spec_mul_units(fl, bankroll) == spec_mul_units(bankroll, fl)) by (nonlinear_arith);
    let raw_s = spec_mul_units(bankroll, fs);
    let raw_l = spec_mul_units(bankroll, fl);
    assert(raw_s <= raw_l);
    crate::fixed::lemma_floor_to_step_monotone(raw_s, raw_l, CENT as int);
}

/// Kelly sizer exposed to the pricing pipeline: quarter-Kelly style
/// sizing with the standard 6.25 % cap.
#[derive(Debug, Clone)]
pub struct KellySizer {
    /// The underlying calculator.
    pub inner: KellyCriterion,
}

impl KellySizer {
    /// Create a sizer with the given Kelly fraction (250_000 micro-units
    /// for quarter-Kelly) and the standard position cap.
    pub fn new(fraction: u64) -> (r: KellySizer)
        requires
            0 < fraction <= SCALE,
        ensures
            r.inner.well_formed(),
            r.inner.fraction == fraction,
            r.inner.max_position_fraction == 62_500,
    {
        KellySizer { inner: KellyCriterion::new(fraction, 62_500) }
    }

    /// The dollar amount, in micro-USDC, to risk on this signal.
    pub fn optimal_size(&self, estimated_prob: u64, market_price: u64, bankroll: u64) -> (r: u64)
        requires
            self.inner.well_formed(),
            estimated_prob <= SCALE,
        ensures
            r == spec_kelly_size(
                bankroll as int,
                estimated_prob as int,
                market_price as int,
                self.inner.fraction as int,
                self.inner.max_position_fraction as int,
            ),
            r <= bankroll,
            estimated_prob <= market_price ==> r == 0,
    {
        self.inner.position_size_usdc(bankroll, estimated_prob, market_price)
    }

    /// The fraction of bankroll to bet, in micro-units.
    pub fn optimal_fraction(&self, estimated_prob: u64, market_price: u64) -> (r: u64)
        requires
            self.inner.well_formed(),
            estimated_prob <= SCALE,
        ensures
            r == spec_kelly_fraction(
                estimated_prob as int,
                market_price as int,
                self.inner.fraction as int,
                self.inner.max_position_fraction as int,
            ),
    {
        self.inner.optimal_fraction(estimated_prob, market_price)
    }

    /// Access the underlying calculator.
    pub fn inner(&self) -> (r: &KellyCriterion)
        ensures
            r == &self.inner,
    {
        &self.inner
    }
}

} // verus!
