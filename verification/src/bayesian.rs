//! Bayesian probability estimator: EWMA fusion of price feeds.
//!
//! Two inputs are fused.  Named spot-price sources are averaged and the
//! average is smoothed by an exponential weighted moving average; a
//! simplified path smooths a single probability observation stream.  The
//! EWMA step moves the old value toward the new observation by
//! `ceil(|x - prev| * alpha / SCALE)`, rounding toward the observation,
//! so a constant input stream reaches that input after finitely many
//! steps.

use vstd::prelude::*;

use crate::fixed::SCALE;
use crate::sigmoid;

verus! {

/// One EWMA step: move `prev` toward `x` by `ceil(|x - prev| * alpha / SCALE)`.
pub open spec fn spec_ewma_step(prev: int, x: int, alpha: int) -> int {
    if x >= prev {
        prev + ((x - prev) * alpha + (SCALE - 1)) / (SCALE as int)
    } else {
        prev - ((prev - x) * alpha + (SCALE - 1)) / (SCALE as int)
    }
}

/// The rounded-up scaled delta stays within `[0, d]`, is positive for a
/// positive delta, and equals `d` when `alpha` is the full scale.
proof fn lemma_ceil_step(d: int, alpha: int)
    requires
        d >= 0,
        1 <= alpha <= SCALE,
    ensures
        0 <= (d * alpha + (SCALE - 1)) / (SCALE as int) <= d,
        d >= 1 ==> (d * alpha + (SCALE - 1)) / (SCALE as int) >= 1,
        alpha == SCALE ==> (d * alpha + (SCALE - 1)) / (SCALE as int) == d,
{
    assert(0 <= (d * alpha + (SCALE - 1)) / (SCALE as int) <= d
        && (d >= 1 ==> (d * alpha + (SCALE - 1)) / (SCALE as int) >= 1)
        && (alpha == SCALE ==> (d * alpha + (SCALE - 1)) / (SCALE as int) == d))
        by (nonlinear_arith)
        requires
            d >= 0,
            1 <= alpha <= SCALE,
    ;
}

/// An EWMA step never leaves the closed interval spanned by the old
/// value and the observation.
pub proof fn lemma_ewma_step_between(prev: int, x: int, alpha: int)
    requires
        prev >= 0,
        x >= 0,
        1 <= alpha <= SCALE,
    ensures
        x >= prev ==> prev <= spec_ewma_step(prev, x, alpha) <= x,
        x < prev ==> x <= spec_ewma_step(prev, x, alpha) <= prev,
{
    if x >= prev {
        lemma_ceil_step(x - prev, alpha);
    } else {
        lemma_ceil_step(prev - x, alpha);
    }
}

/// Fed a constant observation, the EWMA strictly approaches it: each
/// step shrinks the distance by at least one micro-unit, and a full
/// weight (`alpha == SCALE`) reaches the observation in one step.
pub proof fn lemma_ewma_step_converges(prev: int, x: int, alpha: int)
    requires
        prev >= 0,
        x >= 0,
        prev != x,
        1 <= alpha <= SCALE,
    ensures
        ({
            let stepped = spec_ewma_step(prev, x, alpha);
            let d_old = if x >= prev { x - prev } else { prev - x };
            let d_new = if x >= stepped { x - stepped } else { stepped - x };
            d_new < d_old
        }),
        alpha == SCALE ==> spec_ewma_step(prev, x, alpha) == x,
{
    lemma_ewma_step_between(prev, x, alpha);
    if x >= prev {
        lemma_ceil_step(x - prev, alpha);
    } else {
        lemma_ceil_step(prev - x, alpha);
    }
}

/// Compute one EWMA step in micro-units.
pub fn ewma_step(prev: u64, x: u64, alpha: u64) -> (r: u64)
    requires
        1 <= alpha <= SCALE,
    ensures
        r == spec_ewma_step(prev as int, x as int, alpha as int),
        prev <= x ==> prev <= r <= x,
        x < prev ==> x <= r <= prev,
{
    proof {
        lemma_ewma_step_between(prev as int, x as int, alpha as int);
    }
    if x >= prev {
        proof {
            lemma_ceil_step((x - prev) as int, alpha as int);
        }
        let wide: u128 = ((x - prev) as u128) * (alpha as u128) + ((SCALE - 1) as u128);
        let step: u64 = (wide / (SCALE as u128)) as u64;
        prev + step
    } else {
        proof {
            lemma_ceil_step((prev - x) as int, alpha as int);
        }
        let wide: u128 = ((prev - x) as u128) * (alpha as u128) + ((SCALE - 1) as u128);
        let step: u64 = (wide / (SCALE as u128)) as u64;
        prev - step
    }
}

/// Sum of the stored source prices.
pub open spec fn spec_sum(s: Seq<(String, u64)>) -> int
    decreases s.len(),
{
    if s.len() == 0 {
        0
    } else {
        spec_sum(s.drop_last()) + s.last().1
    }
}

/// The association each stored source name has to its latest price.
pub open spec fn spec_price_map(s: Seq<(String, u64)>) -> Map<Seq<char>, u64>
    decreases s.len(),
{
    if s.len() == 0 {
        Map::empty()
    } else {
        spec_price_map(s.drop_last()).insert(s.last().0@, s.last().1)
    }
}

/// No two stored entries share a source name.
pub open spec fn spec_unique_keys(s: Seq<(String, u64)>) -> bool {
    forall|i: int, j: int| 0 <= i < j < s.len() ==> s[i].0@ != s[j].0@
}

/// The sum of the stored prices is bounded by count times the largest
/// representable price.
proof fn lemma_sum_bound(s: Seq<(String, u64)>)
    ensures
        0 <= spec_sum(s) <= s.len() * (u64::MAX as int),
    decreases s.len(),
{
    if s.len() == 0 {
    } else {
        lemma_sum_bound(s.drop_last());
        assert((s.len() - 1) * (u64::MAX as int) + (u64::MAX as int)
            == s.len() * (u64::MAX as int)) by (nonlinear_arith);
    }
}

/// Updating the entry that already holds a key is, at the map level, an
/// insert of that key.
proof fn lemma_price_map_update(s: Seq<(String, u64)>, j: int, pair: (String, u64))
    requires
        spec_unique_keys(s),
        0 <= j < s.len(),
        s[j].0@ == pair.0@,
    ensures
        spec_price_map(s.update(j, pair)) =~= spec_price_map(s).insert(pair.0@, pair.1),
        spec_unique_keys(s.update(j, pair)),
    decreases s.len(),
{
    let s2 = s.update(j, pair);
    assert(forall|i: int| 0 <= i < s.len() && i != j ==> s2[i] == s[i]);
    if j == s.len() - 1 {
        assert(s2.drop_last() =~= s.drop_last());
    } else {
        assert(s2.drop_last() =~= s.drop_last().update(j, pair));
        assert(spec_unique_keys(s.drop_last()));
        lemma_price_map_update(s.drop_last(), j, pair);
        assert(s.last().0@ != pair.0@);
    }
}

/// Appending a fresh key is, at the map level, an insert of that key.
proof fn lemma_price_map_push(s: Seq<(String, u64)>, pair: (String, u64))
    requires
        spec_unique_keys(s),
        forall|i: int| 0 <= i < s.len() ==> s[i].0@ != pair.0@,
    ensures
        spec_price_map(s.push(pair)) =~= spec_price_map(s).insert(pair.0@, pair.1),
        spec_unique_keys(s.push(pair)),
{
    assert(s.push(pair).drop_last() =~= s);
}

/// Bayesian estimator fusing named spot-price sources (and, on the
/// simplified path, direct probability observations) into one smoothed
/// estimate.
#[derive(Debug)]
pub struct BayesianEstimator {
    /// Latest price per named source, keys unique.
    pub prices: Vec<(String, u64)>,
    /// EWMA smoothing weight in micro-units, in `(0, SCALE]`.
    pub alpha: u64,
    /// Smoothed fused spot price, once any source reported.
    pub smoothed_price: Option<u64>,
    /// Smoothed probability for the simplified path, always in
    /// `[0, SCALE]` once set.
    pub smoothed_prob: Option<u64>,
}

impl BayesianEstimator {
    /// The estimator's invariant: a valid weight, unique source names,
    /// and a probability estimate inside the unit interval.
    pub open spec fn well_formed(self) -> bool {
        &&& 1 <= self.alpha <= SCALE
        &&& spec_unique_keys(self.prices@)
        &&& match self.smoothed_prob {
            Some(p) => p <= SCALE,
            None => true,
        }
    }

    /// Creates an estimator with the given EWMA weight.
    pub fn new(alpha: u64) -> (r: BayesianEstimator)
        requires
            1 <= alpha <= SCALE,
        ensures
            r.well_formed(),
            r.alpha == alpha,
            r.prices@.len() == 0,
            r.smoothed_price is None,
            r.smoothed_prob is None,
    {
        BayesianEstimator { prices: Vec::new(), alpha, smoothed_price: None, smoothed_prob: None }
    }

    /// Records a new price from a named source and refreshes the fused
    /// estimate: the mean over all sources, smoothed by one EWMA step
    /// against the previous fused value.
    pub fn update_source(&mut self, source: &str, price: u64)
        requires
            old(self).well_formed(),
        ensures
            final(self).well_formed(),
            final(self).alpha == old(self).alpha,
            final(self).smoothed_prob == old(self).smoothed_prob,
            spec_price_map(final(self).prices@)
                =~= spec_price_map(old(self).prices@).insert(source@, price),
            final(self).prices@.len() >= 1,
            ({
                let avg = spec_sum(final(self).prices@) / (final(self).prices@.len() as int);
                final(self).smoothed_price == match old(self).smoothed_price {
                    Some(prev) => Some(
                        spec_ewma_step(prev as int, avg, old(self).alpha as int) as u64,
                    ),
                    None => Some(avg as u64),
                }
            }),
    {
        let key: String = String::from_str(source);
        let i: usize = self.find_source(&key);
        if i < self.prices.len() {
            proof {
                lemma_price_map_update(self.prices@, i as int, (key, price));
            }
            self.prices.set(i, (key, price));
        } else {
            proof {
                lemma_price_map_push(self.prices@, (key, price));
            }
            self.prices.push((key, price));
        }
        let avg: u64 = self.average();
        self.smoothed_price = match self.smoothed_price {
            Some(prev) => Some(ewma_step(prev, avg, self.alpha)),
            None => Some(avg),
        };
    }

    /// Index of the entry holding `key`, or the length when absent.
    fn find_source(&self, key: &String) -> (r: usize)
        ensures
            r <= self.prices@.len(),
            r < self.prices@.len() ==> self.prices@[r as int].0@ == key@,
            forall|j: int| 0 <= j < r ==> self.prices@[j].0@ != key@,
    {
        let mut i: usize = 0;
        while i < self.prices.len()
            invariant
                0 <= i <= self.prices@.len(),
                forall|j: int| 0 <= j < i ==> self.prices@[j].0@ != key@,
            decreases self.prices@.len() - i,
        {
            if self.prices[i].0 == *key {
                return i;
            }
            i = i + 1;
        }
        i
    }

    /// The arithmetic mean of the stored source prices.
    fn average(&self) -> (r: u64)
        requires
            self.prices@.len() >= 1,
        ensures
            r == spec_sum(self.prices@) / (self.prices@.len() as int),
    {
        let mut acc: u128 = 0;
        let mut i: usize = 0;
        proof {
            lemma_sum_bound(self.prices@);
        }
        while i < self.prices.len()
            invariant
                0 <= i <= self.prices@.len(),
                acc == spec_sum(self.prices@.subrange(0, i as int)),
                acc <= (i as int) * (u64::MAX as int),
            decreases self.prices@.len() - i,
        {
            proof {
                assert(self.prices@.subrange(0, i + 1).drop_last()
                    =~= self.prices@.subrange(0, i as int));
                assert((i as int) * (u64::MAX as int) + (u64::MAX as int)
                    == (i + 1) * (u64::MAX as int)) by (nonlinear_arith);
            }
            acc = acc + (self.prices[i].1 as u128);
            i = i + 1;
        }
        proof {
            assert(self.prices@.subrange(0, self.prices@.len() as int) =~= self.prices@);
            lemma_sum_bound(self.prices@);
            let n = self.prices@.len() as int;
            let total = spec_sum(self.prices@);
            assert(0 <= total / n <= u64::MAX) by (nonlinear_arith)
                requires
                    n >= 1,
                    0 <= total <= n * (u64::MAX as int),
            ;
        }
        (acc / (self.prices.len() as u128)) as u64
    }

    /// Simplified path: smooth a single probability observation in
    /// micro-units and return the new estimate.  The estimate stays
    /// inside the unit interval.
    pub fn update(&mut self, observation: u64) -> (r: u64)
        requires
            old(self).well_formed(),
            observation <= SCALE,
        ensures
            final(self).well_formed(),
            final(self).alpha == old(self).alpha,
            final(self).prices == old(self).prices,
            final(self).smoothed_price == old(self).smoothed_price,
            r == match old(self).smoothed_prob {
                Some(prev) => spec_ewma_step(
                    prev as int,
                    observation as int,
                    old(self).alpha as int,
                ) as u64,
                None => observation,
            },
            final(self).smoothed_prob == Some(r),
            r <= SCALE,
    {
        let smoothed: u64 = match self.smoothed_prob {
            Some(prev) => ewma_step(prev, observation, self.alpha),
            None => observation,
        };
        self.smoothed_prob = Some(smoothed);
        smoothed
    }

    /// The fused spot-price estimate, if any source has reported.
    pub fn current_price(&self) -> (r: Option<u64>)
        ensures
            r == self.smoothed_price,
    {
        self.smoothed_price
    }

    /// The smoothed probability estimate of the simplified path.
    pub fn current_prob(&self) -> (r: Option<u64>)
        ensures
            r == self.smoothed_prob,
    {
        self.smoothed_prob
    }

    /// The number of sources that have reported a price.
    pub fn source_count(&self) -> (r: usize)
        ensures
            r == self.prices@.len(),
    {
        self.prices.len()
    }

    /// Estimate the probability that the fused price finishes above
    /// `strike_price`: a rational logistic curve over the distance to
    /// the strike in basis points, scaled by the volatility, clamped to
    /// `[0.01, 0.99]`.  `None` until a source has reported, or for a
    /// zero strike or volatility.  Distances that floor to zero
    /// micro-units after scaling read as exactly one half.
    pub fn estimate_probability(&self, strike_price: u64, volatility_bps: u64) -> (r: Option<u64>)
        ensures
            r == spec_estimate_probability(
                self.smoothed_price,
                strike_price as int,
                volatility_bps as int,
            ),
            r is Some ==> 10_000 <= r->0 <= 990_000,
    {
        let current: u64 = match self.smoothed_price {
            Some(p) => p,
            None => { return None; },
        };
        if strike_price == 0 || volatility_bps == 0 {
            return None;
        }
        let neg: bool = current < strike_price;
        let dist: u64 = if neg { strike_price - current } else { current - strike_price };
        proof {
            lemma_arg_bounds(dist as int, strike_price as int, volatility_bps as int);
        }
        // distance in micro-basis-points: dist * 10_000 * SCALE / strike
        let dist_bps_wide: u128 =
            (dist as u128) * 10_000u128 * (SCALE as u128) / (strike_price as u128);
        // scaled by volatility: dist_bps * SCALE / volatility
        let arg_wide: u128 = dist_bps_wide * (SCALE as u128) / (volatility_bps as u128);
        let mag: u64 = if arg_wide > (MAG_CAP as u128) { MAG_CAP } else { arg_wide as u64 };
        let raw: u64 = sigmoid::sigmoid_units(neg, mag);
        let clamped: u64 = if raw < 10_000 {
            10_000
        } else if raw > 990_000 {
            990_000
        } else {
            raw
        };
        Some(clamped)
    }
}

/// Magnitude cap for the logistic argument; far beyond the point where
/// the clamped output saturates.
pub const MAG_CAP: u64 = 1_000_000_000;

/// The logistic argument before capping.
pub open spec fn spec_prob_arg(current: int, strike: int, vol: int) -> int {
    let dist = if current >= strike { current - strike } else { strike - current };
    let dist_bps = dist * 10_000 * (SCALE as int) / strike;
    dist_bps * (SCALE as int) / vol
}

/// The full probability estimate: logistic of the capped argument,
/// clamped to `[0.01, 0.99]` in micro-units.
pub open spec fn spec_estimate_probability(
    smoothed: Option<u64>,
    strike: int,
    vol: int,
) -> Option<u64> {
    match smoothed {
        None => None,
        Some(current) => if strike == 0 || vol == 0 {
            None
        } else {
            let arg = spec_prob_arg(current as int, strike, vol);
            let mag = if arg > MAG_CAP {
                MAG_CAP as int
            } else {
                arg
            };
            let raw = sigmoid::spec_sigmoid(current < strike, mag);
            let clamped = if raw < 10_000 {
                10_000
            } else if raw > 990_000 {
                990_000
            } else {
                raw
            };
            Some(clamped as u64)
        },
    }
}

/// The intermediate products in the logistic argument fit 128 bits.
proof fn lemma_arg_bounds(dist: int, strike: int, vol: int)
    requires
        0 <= dist <= u64::MAX,
        1 <= strike,
        1 <= vol,
    ensures
        0 <= dist * 10_000 * (SCALE as int) <= u128::MAX,
        0 <= dist * 10_000 * (SCALE as int) / strike * (SCALE as int) <= u128::MAX,
        0 <= dist * 10_000 * (SCALE as int) / strike * (SCALE as int) / vol,
{
    assert(0 <= dist * 10_000 * (SCALE as int) <= (u64::MAX as int) * 10_000 * (SCALE as int))
        by (nonlinear_arith)
        requires
            0 <= dist <= u64::MAX,
    ;
    let num = dist * 10_000 * (SCALE as int);
    assert(0 <= num / strike <= num) by (nonlinear_arith)
        requires
            0 <= num,
            1 <= strike,
    ;
    assert(num / strike * (SCALE as int) <= num * (SCALE as int)) by (nonlinear_arith)
        requires
            0 <= num / strike <= num,
    ;
    assert(num * (SCALE as int) <= (u64::MAX as int) * 10_000 * (SCALE as int) * (SCALE as int))
        by (nonlinear_arith)
        requires
            0 <= num <= (u64::MAX as int) * 10_000 * (SCALE as int),
    ;
    let num2 = num / strike * (SCALE as int);
    assert(0 <= num2 / vol) by (nonlinear_arith)
        requires
            0 <= num2,
            1 <= vol,
    ;
}

impl Default for BayesianEstimator {
    /// The default weight is 0.7, responsive enough for sub-second
    /// markets.
    fn default() -> (r: BayesianEstimator)
        ensures
            r.well_formed(),
            r.alpha == 700_000,
            r.prices@.len() == 0,
            r.smoothed_price is None,
            r.smoothed_prob is None,
    {
        BayesianEstimator::new(700_000)
    }
}

} // verus!
