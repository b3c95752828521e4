//! Fee model for the CLOB: makers pay nothing, takers pay a parabolic
//! fee that peaks at the half-dollar price and vanishes at the extremes.
//!
//! The taker fee on a price `p` (micro-units) and size `s` is
//! `rate * (p * (SCALE - p) / SCALE)^n * s / SCALE^(n+1)` evaluated in
//! fixed point, one floor division per step, which is the exact value the
//! contracts below state.

use vstd::prelude::*;

use crate::fixed::{mul_units, spec_mul_units, HALF_SCALE, SCALE};

verus! {

/// `base^n` over the integers.
pub open spec fn spec_pow(base: int, n: nat) -> int
    decreases n,
{
    if n == 0 {
        1
    } else {
        base * spec_pow(base, (n - 1) as nat)
    }
}

/// Fixed-point power: multiply `n` times by `t`, flooring at each step.
pub open spec fn spec_fixpow(t: int, n: nat) -> int
    decreases n,
{
    if n == 0 {
        SCALE as int
    } else {
        spec_mul_units(spec_fixpow(t, (n - 1) as nat), t)
    }
}

/// The parabola factor `p * (SCALE - p) / SCALE` of a price.
pub open spec fn spec_parabola(p: int) -> int {
    p * (SCALE - p) / (SCALE as int)
}

/// The taker fee in micro-units for price `p` and size `size`.
pub open spec fn spec_taker_fee(rate: int, n: nat, p: int, size: int) -> int {
    if p <= 0 || p >= SCALE {
        0
    } else {
        spec_mul_units(spec_mul_units(rate, spec_fixpow(spec_parabola(p), n)), size)
    }
}

/// A fixed-point power of a fraction stays a fraction.
proof fn lemma_fixpow_bounds(t: int, n: nat)
    requires
        0 <= t <= SCALE,
    ensures
        0 <= spec_fixpow(t, n) <= SCALE,
    decreases n,
{
    if n > 0 {
        lemma_fixpow_bounds(t, (n - 1) as nat);
        crate::fixed::lemma_mul_units_fraction(spec_fixpow(t, (n - 1) as nat), t);
    }
}

/// Fixed-point power is monotone in its base.
proof fn lemma_fixpow_monotone(t1: int, t2: int, n: nat)
    requires
        0 <= t1 <= t2 <= SCALE,
    ensures
        spec_fixpow(t1, n) <= spec_fixpow(t2, n),
        0 <= spec_fixpow(t1, n) <= SCALE,
        0 <= spec_fixpow(t2, n) <= SCALE,
    decreases n,
{
    lemma_fixpow_bounds(t1, n);
    lemma_fixpow_bounds(t2, n);
    if n > 0 {
        lemma_fixpow_monotone(t1, t2, (n - 1) as nat);
        let f1 = spec_fixpow(t1, (n - 1) as nat);
        let f2 = spec_fixpow(t2, (n - 1) as nat);
        assert(f1 * t1 / (SCALE as int) <= f2 * t2 / (SCALE as int))
            by (nonlinear_arith)
            requires
                0 <= f1 <= f2,
                0 <= t1 <= t2,
        ;
    }
}

/// The parabola factor never exceeds a quarter, and is exactly a quarter
/// at the half-dollar price.
proof fn lemma_parabola_peak(p: int)
    requires
        0 < p < SCALE,
    ensures
        0 <= spec_parabola(p) <= spec_parabola(HALF_SCALE as int),
        spec_parabola(HALF_SCALE as int) == SCALE / 4,
{
    assert(0 <= p * (SCALE - p) / (SCALE as int)
        && p * (SCALE - p) / (SCALE as int)
            <= (HALF_SCALE as int) * (SCALE - HALF_SCALE) / (SCALE as int))
        by (nonlinear_arith)
        requires
            0 < p < SCALE,
    ;
    assert((HALF_SCALE as int) * (SCALE - HALF_SCALE) / (SCALE as int) == SCALE / 4);
}

/// Scaled by `4^n`, a fixed-point power of the peak parabola factor never
/// exceeds one: `4^n * fixpow(SCALE/4, n) <= SCALE`.
proof fn lemma_fixpow_quarter(n: nat)
    ensures
        spec_pow(4, n) * spec_fixpow((SCALE / 4) as int, n) <= SCALE,
        spec_pow(4, n) >= 1,
    decreases n,
{
    let q: int = (SCALE / 4) as int;
    if n == 0 {
    } else {
        lemma_fixpow_quarter((n - 1) as nat);
        let prev = spec_fixpow(q, (n - 1) as nat);
        let p4 = spec_pow(4, (n - 1) as nat);
        lemma_fixpow_bounds(q, (n - 1) as nat);
        assert(4 * p4 * (prev * q / (SCALE as int)) <= p4 * prev)
            by (nonlinear_arith)
            requires
                p4 >= 1,
                prev >= 0,
                q == (SCALE / 4) as int,
        ;
    }
}

/// Fee calculator for the venue's fee structure.  Maker orders pay
/// nothing; taker orders pay the parabolic fee.
#[derive(Debug, Clone)]
pub struct FeeCalculator {
    /// Fee rate in micro-units (2_500 is the standard 0.25 %).
    pub fee_rate: u64,
    /// Fee exponent; 2 gives the parabolic curve.
    pub exponent: u32,
    /// Whether this calculator is for maker orders (always zero fee).
    pub is_maker: bool,
}

impl FeeCalculator {
    /// Rates are fractions of one; the exponent is small so that the
    /// fixed-point powers stay meaningful.
    pub open spec fn well_formed(self) -> bool {
        &&& 0 < self.fee_rate <= SCALE
        &&& 1 <= self.exponent <= 4
    }

    /// The fee rate this calculator applies to takers.
    pub open spec fn spec_rate(self) -> int {
        self.fee_rate as int
    }

    /// The fee exponent.
    pub open spec fn spec_exponent(self) -> nat {
        self.exponent as nat
    }

    /// Whether this calculator is the maker variant.
    pub open spec fn spec_is_maker(self) -> bool {
        self.is_maker
    }

    /// Creates a taker calculator with custom rate and exponent.
    pub fn new(fee_rate: u64, exponent: u32) -> (r: FeeCalculator)
        requires
            0 < fee_rate <= SCALE,
            1 <= exponent <= 4,
        ensures
            r.well_formed(),
            r.spec_rate() == fee_rate,
            r.spec_exponent() == exponent,
            !r.spec_is_maker(),
    {
        FeeCalculator { fee_rate, exponent, is_maker: false }
    }

    /// Creates the maker calculator (zero fee); the primary constructor
    /// under the maker-first strategy.
    pub fn new_maker() -> (r: FeeCalculator)
        ensures
            r.well_formed(),
            r.spec_rate() == 2_500,
            r.spec_exponent() == 2,
            r.spec_is_maker(),
    {
        FeeCalculator { fee_rate: 2_500, exponent: 2, is_maker: true }
    }

    /// Creates a taker calculator for standard markets.
    pub fn standard() -> (r: FeeCalculator)
        ensures
            r.well_formed(),
            r.spec_rate() == 2_500,
            r.spec_exponent() == 2,
            !r.spec_is_maker(),
    {
        FeeCalculator { fee_rate: 2_500, exponent: 2, is_maker: false }
    }

    /// Creates a taker calculator for crypto short-duration markets,
    /// which charge ten times the standard rate.
    pub fn crypto_short_duration() -> (r: FeeCalculator)
        ensures
            r.well_formed(),
            r.spec_rate() == 25_000,
            r.spec_exponent() == 2,
            !r.spec_is_maker(),
    {
        FeeCalculator { fee_rate: 25_000, exponent: 2, is_maker: false }
    }

    /// Taker fee for a fill of `size` at price `price`, both micro-units.
    /// Prices outside the open unit interval carry no fee.
    pub fn taker_fee(&self, price: u64, size: u64) -> (r: u64)
        requires
            self.well_formed(),
        ensures
            r == spec_taker_fee(
                self.spec_rate(),
                self.spec_exponent(),
                price as int,
                size as int,
            ),
            r <= size,
    {
        if price == 0 || price >= SCALE {
            proof {
                crate::fixed::lemma_mul_units_fraction(size as int, 0);
            }
            return 0;
        }
        proof {
            lemma_parabola_peak(price as int);
        }
        let parabola: u64 = mul_units(price, SCALE - price);
        let mut factor: u64 = SCALE;
        let mut i: u32 = 0;
        while i < self.exponent
            invariant
                0 <= i <= self.exponent,
                0 <= parabola <= SCALE,
                factor == spec_fixpow(parabola as int, i as nat),
                0 <= factor <= SCALE,
            decreases self.exponent - i,
        {
            proof {
                crate::fixed::lemma_mul_units_fraction(factor as int, parabola as int);
            }
            factor = mul_units(factor, parabola);
            i = i + 1;
        }
        proof {
            crate::fixed::lemma_mul_units_fraction(self.fee_rate as int, factor as int);
        }
        let scaled_rate: u64 = mul_units(self.fee_rate, factor);
        proof {
            crate::fixed::lemma_mul_units_fraction(scaled_rate as int, SCALE as int);
            assert(spec_mul_units(scaled_rate as int, size as int)
                <= spec_mul_units(size as int, SCALE as int)) by {
                assert(scaled_rate as int * (size as int) <= size as int * (SCALE as int))
                    by (nonlinear_arith)
                    requires
                        0 <= scaled_rate <= SCALE,
                        0 <= size,
                ;
            }
            assert(spec_mul_units(size as int, SCALE as int) == size as int);
        }
        mul_units(scaled_rate, size)
    }

    /// Maker fee: always zero, for every price and size.
    pub fn maker_fee(&self, price: u64, size: u64) -> (r: u64)
        ensures
            r == 0,
    {
        let _ = price;
        let _ = size;
        0
    }

    /// Net cost of a maker fill is the raw cost: no fee is added.
    pub fn net_cost_maker(&self, raw_cost: u64) -> (r: u64)
        ensures
            r == raw_cost,
    {
        raw_cost
    }

    /// Net cost of a taker fill: raw cost plus the taker fee.
    pub fn net_cost_taker(&self, raw_cost: u64, price: u64, size: u64) -> (r: u64)
        requires
            self.well_formed(),
            raw_cost + size <= u64::MAX,
        ensures
            r == raw_cost + spec_taker_fee(
                self.spec_rate(),
                self.spec_exponent(),
                price as int,
                size as int,
            ),
    {
        raw_cost + self.taker_fee(price, size)
    }

    /// Minimum edge, in percent micro-units, needed to profit as a taker:
    /// one hundred times the fee on a unit-size fill.
    pub fn min_profitable_edge_taker(&self, price: u64) -> (r: u64)
        requires
            self.well_formed(),
        ensures
            r == 100 * spec_taker_fee(
                self.spec_rate(),
                self.spec_exponent(),
                price as int,
                SCALE as int,
            ),
    {
        let fee_on_unit: u64 = self.taker_fee(price, SCALE);
        100 * fee_on_unit
    }

    /// Net edge after fees, in signed micro-units: `fair - market - fee`
    /// for a buy, `market - fair - fee` for a sell.  The maker variant
    /// charges no fee; the taker variant charges the fee on a unit size
    /// at the market price.
    pub fn net_edge(&self, fair_value: u64, market_price: u64, is_buy: bool) -> (r: i64)
        requires
            self.well_formed(),
            fair_value <= SCALE,
            market_price <= SCALE,
        ensures
            ({
                let fee: int = if self.spec_is_maker() {
                    0
                } else {
                    spec_taker_fee(
                        self.spec_rate(),
                        self.spec_exponent(),
                        market_price as int,
                        SCALE as int,
                    )
                };
                if is_buy {
                    r == fair_value - market_price - fee
                } else {
                    r == market_price - fair_value - fee
                }
            }),
    {
        let fee: u64 = if self.is_maker {
            0
        } else {
            self.taker_fee(market_price, SCALE)
        };
        if is_buy {
            fair_value as i64 - market_price as i64 - fee as i64
        } else {
            market_price as i64 - fair_value as i64 - fee as i64
        }
    }
}

/// The taker fee is never negative, never exceeds
/// `rate * size / (4^n * SCALE)` (the value at the half-dollar price,
/// `rate * 2^(-2n) * size` in real terms), and peaks at that price:
/// for every price the fee is at most the fee at `SCALE / 2`.
pub proof fn lemma_taker_fee_bounds(calc: FeeCalculator, price: int, size: int)
    requires
        calc.well_formed(),
        0 < price < SCALE,
        0 <= size,
    ensures
        0 <= spec_taker_fee(calc.spec_rate(), calc.spec_exponent(), price, size),
        spec_taker_fee(calc.spec_rate(), calc.spec_exponent(), price, size)
            <= spec_taker_fee(calc.spec_rate(), calc.spec_exponent(), HALF_SCALE as int, size),
        spec_taker_fee(calc.spec_rate(), calc.spec_exponent(), HALF_SCALE as int, size)
            <= calc.spec_rate() * size / (spec_pow(4, calc.spec_exponent()) * (SCALE as int)),
{
    let rate = calc.spec_rate();
    let n = calc.spec_exponent();
    let t = spec_parabola(price);
    let th = spec_parabola(HALF_SCALE as int);
    lemma_parabola_peak(price);
    lemma_parabola_peak(HALF_SCALE as int);
    lemma_fixpow_monotone(t, th, n);
    let f = spec_fixpow(t, n);
    let fh = spec_fixpow(th, n);
    // Monotone chain from the parabola bound up to the final fee.
    assert(spec_mul_units(rate, f) <= spec_mul_units(rate, fh) && spec_mul_units(rate, f) >= 0)
        by (nonlinear_arith)
        requires
            0 <= f <= fh,
            rate >= 0,
    ;
    assert(spec_mul_units(spec_mul_units(rate, f), size)
        <= spec_mul_units(spec_mul_units(rate, fh), size)
        && spec_mul_units(spec_mul_units(rate, f), size) >= 0)
        by (nonlinear_arith)
        requires
            0 <= spec_mul_units(rate, f) <= spec_mul_units(rate, fh),
            size >= 0,
    ;
    // Bound at the peak: 4^n * fixpow(SCALE/4, n) <= SCALE.
    lemma_fixpow_quarter(n);
    let p4 = spec_pow(4, n);
    assert(p4 * fh <= SCALE);
    lemma_fixpow_bounds(th, n);
    assert(spec_mul_units(spec_mul_units(rate, fh), size) <= rate * size / (p4 * (SCALE as int)))
        by (nonlinear_arith)
        requires
            0 <= fh,
            p4 >= 1,
            p4 * fh <= SCALE,
            0 < rate <= SCALE,
            size >= 0,
    ;
}

} // verus!
