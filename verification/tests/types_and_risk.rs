//! Domain types, risk manager, settlement aggregation and wallet
//! bookkeeping.

use lmsr_bot::config::RiskConfig;
use lmsr_bot::ports::RedemptionResult;
use lmsr_bot::risk::RiskManager;
use lmsr_bot::settlement::{ResolutionStatus, Settlement, SettlementResult};
use lmsr_bot::trade::{Asset, Order, OrderBookSnapshot, OrderStatus, OrderType, RichOrder, TradeSide};
use lmsr_bot::wallet::{CachedBalance, WalletManager};

fn test_config() -> RiskConfig {
    RiskConfig {
        max_daily_loss_fraction: 20_000,
        max_position_size: 100_000_000,
        max_total_exposure: 500_000_000,
        min_bankroll: 50_000_000,
        circuit_breaker_losses: 3,
        cooldown_seconds: 300,
    }
}

#[test]
fn test_order_new_maker_defaults() {
    let order = Order::new_maker(String::from("token_yes"), TradeSide::Buy, 450_000, 10_000_000);
    assert_eq!(order.order_type, OrderType::Gtc);
    assert!(order.post_only);
    assert_eq!(order.price, 450_000);
    assert!(order.id.is_empty());
}

#[test]
fn test_rich_order_new_maker_defaults() {
    let order = RichOrder::new_maker(
        String::from("condition_123"),
        String::from("token_yes"),
        TradeSide::Buy,
        450_000,
        10_000_000,
        Asset::BTC,
    );
    assert_eq!(order.status, OrderStatus::Pending);
    assert_eq!(order.order_type, OrderType::Gtc);
    assert!(order.clob_order_id.is_none());
}

#[test]
fn rich_order_ids_are_version_four() {
    let a = RichOrder::new_maker(
        String::from("c"),
        String::from("t"),
        TradeSide::Buy,
        500_000,
        1_000_000,
        Asset::BTC,
    );
    let b = RichOrder::new_maker(
        String::from("c"),
        String::from("t"),
        TradeSide::Buy,
        500_000,
        1_000_000,
        Asset::BTC,
    );
    assert_eq!((a.id >> 76) & 0xf, 4);
    assert_eq!((b.id >> 76) & 0xf, 4);
    assert_ne!(a.id, b.id);
}

#[test]
fn test_rich_to_boundary() {
    let rich = RichOrder::new_maker(
        String::from("cond"),
        String::from("tok"),
        TradeSide::Sell,
        600_000,
        5_000_000,
        Asset::ETH,
    );
    let boundary = rich.to_boundary_order();
    assert_eq!(boundary.token_id, "tok");
    assert_eq!(boundary.side, TradeSide::Sell);
    assert_eq!(boundary.price, 600_000);
}

#[test]
fn test_orderbook_mid_price() {
    let ob = OrderBookSnapshot {
        condition_id: String::from("test"),
        token_id: String::from("token"),
        best_bid: Some(400_000),
        best_ask: Some(500_000),
        spread: Some(100_000),
        timestamp_ms: 0,
    };
    assert_eq!(ob.mid_price(), Some(450_000));
}

#[test]
fn test_orderbook_mid_price_no_bid() {
    let ob = OrderBookSnapshot {
        condition_id: String::from("test"),
        token_id: String::from("token"),
        best_bid: None,
        best_ask: Some(500_000),
        spread: None,
        timestamp_ms: 0,
    };
    assert_eq!(ob.mid_price(), None);
}

#[test]
fn test_asset_display() {
    assert_eq!(Asset::BTC.label(), "BTC");
    assert_eq!(Asset::ETH.label(), "ETH");
}

#[test]
fn test_trade_side_display() {
    assert_eq!(TradeSide::Buy.label(), "BUY");
    assert_eq!(TradeSide::Sell.label(), "SELL");
}

#[test]
fn test_can_trade_initially() {
    let rm = RiskManager::new(&test_config());
    assert!(rm.can_trade(1_000));
}

#[test]
fn test_circuit_breaker_triggers() {
    let mut rm = RiskManager::new(&test_config());
    rm.record_trade(-10_000_000, 1_000);
    rm.record_trade(-10_000_000, 2_000);
    rm.record_trade(-10_000_000, 3_000);
    assert!(rm.is_circuit_breaker_active());
}

#[test]
fn test_winning_trade_resets_counter() {
    let mut rm = RiskManager::new(&test_config());
    rm.record_trade(-10_000_000, 1_000);
    rm.record_trade(-10_000_000, 2_000);
    rm.record_trade(5_000_000, 3_000);
    rm.record_trade(-10_000_000, 4_000);
    assert!(!rm.is_circuit_breaker_active());
}

#[test]
fn breaker_trips_after_exactly_threshold_losses() {
    // Five consecutive one-dollar losses with a threshold of five.
    let config = RiskConfig { circuit_breaker_losses: 5, ..test_config() };
    let mut rm = RiskManager::new(&config);
    for i in 0..4u64 {
        rm.record_trade(-1_000_000, 1_000 + i);
        assert!(!rm.is_circuit_breaker_active());
    }
    rm.record_trade(-1_000_000, 10_000);
    assert!(rm.is_circuit_breaker_active());
    // Blocked until the cooldown has elapsed in simulated time.
    assert!(!rm.can_trade(10_000 + 299_999));
    assert!(rm.can_trade(10_000 + 300_000));
}

#[test]
fn daily_loss_budget_gates_positions() {
    let mut rm = RiskManager::new(&test_config());
    // Budget: 2% of a 1000 bankroll = 20. A 15-dollar position fits...
    assert!(rm.can_open_position(15_000_000, 1_000_000_000, 1_000));
    // ...but not once 10 have already been lost today.
    rm.record_trade(-10_000_000, 1_000);
    assert!(!rm.can_open_position(15_000_000, 1_000_000_000, 2_000));
    assert!(rm.can_open_position(10_000_000, 1_000_000_000, 2_000));
}

#[test]
fn test_settlement_report_aggregation() {
    let results = vec![
        SettlementResult {
            market_id: String::from("market_1"),
            resolution: ResolutionStatus::ResolvedYes,
            usdc_recovered: 50_000_000,
            tx_hash: Some(String::from("0xabc")),
            success: true,
            error: None,
        },
        SettlementResult {
            market_id: String::from("market_2"),
            resolution: ResolutionStatus::ResolvedNo,
            usdc_recovered: 0,
            tx_hash: None,
            success: false,
            error: Some(String::from("Redemption failed")),
        },
        SettlementResult {
            market_id: String::from("market_3"),
            resolution: ResolutionStatus::ResolvedYes,
            usdc_recovered: 30_000_000,
            tx_hash: Some(String::from("0xdef")),
            success: true,
            error: None,
        },
    ];
    let report = Settlement::new().aggregate_report(results, 1_000);
    assert_eq!(report.total_usdc_recovered, 80_000_000);
    assert_eq!(report.markets_settled, 2);
    assert_eq!(report.markets_failed, 1);
}

#[test]
fn test_resolution_status_eq() {
    assert_eq!(ResolutionStatus::Pending, ResolutionStatus::Pending);
    assert_ne!(ResolutionStatus::ResolvedYes, ResolutionStatus::ResolvedNo);
}

#[test]
fn settlement_batches_and_distribution() {
    let s = Settlement::with_config(100_000, 20);
    assert_eq!(s.next_batch_size(7), 7);
    assert_eq!(s.next_batch_size(53), 20);
    assert_eq!(s.classify_resolution(true), ResolutionStatus::ResolvedYes);
    assert_eq!(s.classify_resolution(false), ResolutionStatus::Pending);
    assert!(!s.is_redeemable(ResolutionStatus::Pending));
    assert!(s.is_redeemable(ResolutionStatus::Voided));
    let redemption = RedemptionResult {
        tx_hash: String::from("0xabc"),
        positions_redeemed: 4,
        usdc_recovered: 10_000_000,
        gas_cost_matic: 0,
    };
    assert_eq!(s.distribute_recovered(&redemption), 2_500_000);
}

#[test]
fn test_cached_balance_staleness() {
    let fresh = CachedBalance { value: 100_000_000, updated_at_ms: 60_000 };
    assert!(!fresh.is_stale(60_000, 30));

    let old = CachedBalance { value: 100_000_000, updated_at_ms: 0 };
    assert!(old.is_stale(60_000, 30));
}

#[test]
fn test_wallet_snapshot_total() {
    let mut wm = WalletManager::new();
    wm.record_token(&String::from("token_a"), 50_000_000, 0);
    wm.record_token(&String::from("token_b"), 30_000_000, 0);

    let snapshot = wm.snapshot(100_000_000, 0);
    assert_eq!(snapshot.total_value, 180_000_000);
    assert_eq!(snapshot.usdc_balance, 100_000_000);
}

#[test]
fn wallet_cache_and_daily_pnl() {
    let mut wm = WalletManager::with_cache_ttl(30);
    assert_eq!(wm.cached_usdc(0), None);
    wm.record_usdc(500_000_000, 0);
    assert_eq!(wm.cached_usdc(29_000), Some(500_000_000));
    assert_eq!(wm.cached_usdc(31_000), None);
    assert_eq!(wm.record_initial_bankroll(500_000_000), 500_000_000);
    assert_eq!(wm.initial_bankroll(), Some(500_000_000));
    assert_eq!(wm.daily_pnl(480_000_000), -20_000_000);
    assert!(wm.is_above_minimum(480_000_000, 50_000_000));
}
