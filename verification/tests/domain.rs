//! Domain math: fees, Bayesian fusion, Kelly sizing and LMSR pricing.

use lmsr_bot::bayesian::BayesianEstimator;
use lmsr_bot::fees::FeeCalculator;
use lmsr_bot::fixed::SCALE;
use lmsr_bot::kelly::{KellyCriterion, KellySizer};
use lmsr_bot::lmsr::{LmsrModel, LmsrPricer};

#[test]
fn test_maker_fee_always_zero() {
    let calc = FeeCalculator::standard();
    assert_eq!(calc.maker_fee(500_000, 100_000_000), 0);
    assert_eq!(calc.maker_fee(100_000, 1_000_000_000), 0);
}

#[test]
fn test_taker_fee_max_at_half() {
    let calc = FeeCalculator::standard();
    let fee_at_half = calc.taker_fee(500_000, 100_000_000);
    let fee_at_quarter = calc.taker_fee(250_000, 100_000_000);
    assert!(fee_at_half > fee_at_quarter, "Fee should be highest at p=0.50");
}

#[test]
fn test_taker_fee_near_zero_at_extremes() {
    let calc = FeeCalculator::standard();
    let fee = calc.taker_fee(10_000, 100_000_000);
    assert!(fee < 1_000, "Fee should be near 0 at extreme prices");
}

#[test]
fn test_crypto_short_duration_higher_fees() {
    let standard = FeeCalculator::standard();
    let crypto = FeeCalculator::crypto_short_duration();
    let std_fee = standard.taker_fee(500_000, 100_000_000);
    let crypto_fee = crypto.taker_fee(500_000, 100_000_000);
    assert!(crypto_fee > std_fee, "Crypto markets should have higher fees");
}

#[test]
fn test_net_cost_maker_equals_raw() {
    let calc = FeeCalculator::standard();
    let raw = 50_000_000;
    assert_eq!(calc.net_cost_maker(raw), raw);
}

#[test]
fn test_new_maker_net_edge_zero_fee() {
    let calc = FeeCalculator::new_maker();
    let edge = calc.net_edge(550_000, 500_000, true);
    assert!((edge - 50_000).abs() < 1_000, "Maker edge should be 0.05");
}

#[test]
fn test_taker_net_edge_reduced_by_fee() {
    let calc = FeeCalculator::standard();
    let edge = calc.net_edge(550_000, 500_000, true);
    assert!(edge < 50_000, "Taker edge should be reduced by fee");
    assert!(edge > 0, "Edge should still be positive for this case");
}

#[test]
fn taker_fee_exact_at_half() {
    // rate * (1/4)^2 * size = 0.0025 * 0.0625 * 100 = 0.015625, staged
    // flooring gives 0.0156.
    let calc = FeeCalculator::standard();
    assert_eq!(calc.taker_fee(500_000, 100_000_000), 15_600);
}

#[test]
fn taker_fee_never_exceeds_peak_bound() {
    let calc = FeeCalculator::standard();
    let peak = calc.taker_fee(500_000, 100_000_000);
    for p in [1, 10_000, 123_456, 400_000, 600_000, 900_000, 999_999] {
        assert!(calc.taker_fee(p, 100_000_000) <= peak);
    }
    // rate * 2^(-2n) * size with rate 0.0025, n = 2, size 100.
    assert!(peak <= 2_500 * 100_000_000 / (16 * SCALE));
}

#[test]
fn test_single_source_update() {
    let mut est = BayesianEstimator::default();
    est.update_source("binance", 50_000_000_000);
    assert_eq!(est.current_price(), Some(50_000_000_000));
    assert_eq!(est.source_count(), 1);
}

#[test]
fn test_multi_source_fusion() {
    let mut est = BayesianEstimator::new(SCALE);
    est.update_source("binance", 50_000_000_000);
    est.update_source("coinbase", 50_100_000_000);
    let price = est.current_price().unwrap();
    assert!(price > 50_000_000_000 && price < 50_100_000_000);
}

#[test]
fn test_probability_above_strike() {
    let mut est = BayesianEstimator::new(SCALE);
    est.update_source("binance", 50_500_000_000);
    let prob = est.estimate_probability(50_000_000_000, 50_000_000).unwrap();
    assert!(prob > 500_000, "Price above strike should give >50% prob");
}

#[test]
fn test_probability_below_strike() {
    let mut est = BayesianEstimator::new(SCALE);
    est.update_source("binance", 49_500_000_000);
    let prob = est.estimate_probability(50_000_000_000, 50_000_000).unwrap();
    assert!(prob < 500_000, "Price below strike should give <50% prob");
}

#[test]
fn test_probability_clamped() {
    let mut est = BayesianEstimator::new(SCALE);
    est.update_source("binance", 55_000_000_000);
    let prob = est.estimate_probability(50_000_000_000, 50_000_000).unwrap();
    assert!(prob <= 990_000, "Probability should be clamped to 0.99");
}

#[test]
fn test_ewma_smoothing() {
    let mut est = BayesianEstimator::new(500_000);
    est.update_source("binance", 100_000_000);
    est.update_source("binance", 200_000_000);
    assert_eq!(est.current_price(), Some(150_000_000));
}

#[test]
fn test_f64_update_first_observation() {
    let mut est = BayesianEstimator::default();
    let result = est.update(550_000);
    assert_eq!(result, 550_000);
}

#[test]
fn test_f64_update_smoothing() {
    let mut est = BayesianEstimator::new(500_000);
    est.update(400_000);
    let result = est.update(600_000);
    // EWMA: 0.40 * 0.5 + 0.60 * 0.5 = 0.50
    assert_eq!(result, 500_000);
}

#[test]
fn ewma_constant_input_converges() {
    let mut est = BayesianEstimator::new(300_000);
    est.update(400_000);
    for _ in 0..64 {
        est.update(600_000);
    }
    assert_eq!(est.current_prob(), Some(600_000));
}

#[test]
fn kelly_clear_edge_size() {
    // p = 0.50 against ask 0.40 with bankroll 1000: quarter-Kelly of
    // (0.5 - 0.4) / 0.6, floored to the cent.
    let sizer = KellySizer::new(250_000);
    assert_eq!(sizer.optimal_size(500_000, 400_000, 1_000_000_000), 41_660_000);
}

#[test]
fn kelly_zero_without_edge() {
    let sizer = KellySizer::new(250_000);
    assert_eq!(sizer.optimal_size(400_000, 400_000, 1_000_000_000), 0);
    assert_eq!(sizer.optimal_size(300_000, 400_000, 1_000_000_000), 0);
    assert_eq!(sizer.optimal_size(500_000, 0, 1_000_000_000), 0);
    assert_eq!(sizer.optimal_size(500_000, SCALE, 1_000_000_000), 0);
}

#[test]
fn kelly_capped_by_max_fraction() {
    // A huge edge: cap at 6.25% of bankroll.
    let k = KellyCriterion::new(SCALE, 62_500);
    let size = k.position_size_usdc(1_000_000_000, 990_000, 10_000);
    assert!(size <= 62_500_000);
    assert_eq!(k.optimal_fraction(990_000, 10_000), 62_500);
}

#[test]
fn quarter_kelly_at_most_full_kelly() {
    let quarter = KellySizer::new(250_000);
    let full = KellySizer::new(SCALE);
    for (p, m) in [(500_000, 400_000), (700_000, 300_000), (550_000, 500_000)] {
        let q = quarter.optimal_size(p, m, 2_000_000_000);
        let f = full.optimal_size(p, m, 2_000_000_000);
        assert!(q <= f, "quarter-Kelly must not exceed full Kelly");
    }
}

#[test]
fn lmsr_equal_quantities_gives_half() {
    let model = LmsrModel::new(100_000_000);
    assert_eq!(model.price_yes(0, 0), 500_000);
}

#[test]
fn lmsr_prices_sum_to_one() {
    let model = LmsrModel::new(100_000_000);
    let p_yes = model.price_yes(50_000_000, 30_000_000);
    let p_no = model.price_no(50_000_000, 30_000_000);
    assert_eq!(p_yes + p_no, SCALE);
}

#[test]
fn lmsr_more_yes_shares_higher_price() {
    let model = LmsrModel::new(100_000_000);
    let p1 = model.price_yes(50_000_000, 0);
    let p2 = model.price_yes(0, 0);
    assert!(p1 > p2, "More YES shares should increase YES price");
}

#[test]
fn lmsr_cost_to_buy_positive() {
    let model = LmsrModel::new(100_000_000);
    let cost = model.cost_to_buy_yes(0, 0, 10_000_000);
    assert!(cost > 0, "Cost to buy should be positive");
}

#[test]
fn lmsr_fair_price_is_clamped_probability() {
    let pricer = LmsrPricer::new(100_000_000);
    assert_eq!(pricer.price(400_000), 400_000);
    assert_eq!(pricer.price(5_000), 10_000);
    assert_eq!(pricer.price(999_999), 990_000);
}

#[test]
fn lmsr_fair_price_monotone() {
    let pricer = LmsrPricer::new(100_000_000);
    let mut last = 0;
    for p in [0, 10_000, 250_000, 500_000, 750_000, 990_000, SCALE] {
        let fair = pricer.price(p);
        assert!(fair >= last);
        last = fair;
    }
}

#[test]
fn lmsr_detect_edge_percent() {
    let model = LmsrModel::new(100_000_000);
    // |0.50 - 0.40| / 0.40 = 25%.
    assert_eq!(model.detect_edge(400_000, 500_000), 25_000_000);
    let pricer = LmsrPricer::new(100_000_000);
    assert_eq!(pricer.detect_edge(400_000, 500_000), 250_000);
}
