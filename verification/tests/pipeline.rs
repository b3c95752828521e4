//! End-to-end pipeline scenarios: the engine driven by simulated feed
//! events against the paper venue.

use lmsr_bot::config::{
    ApiConfig, AppConfig, BotConfig, ContractConfig, LmsrConfig, MarketConfig, RateLimitConfig,
    RiskConfig, SettlementConfig, StrategyConfig, WalletConfig,
};
use lmsr_bot::engine::{ActOutcome, ArbitrageEngine, SignalOutcome};
use lmsr_bot::feed::{FeedState, IngestOutcome};
use lmsr_bot::order_manager::{OrderManager, PlacementDecision};
use lmsr_bot::paper::PaperExecution;
use lmsr_bot::ports::{BotStateSnapshot, OrderPlacement, PriceUpdate};
use lmsr_bot::quotes::Quote;
use lmsr_bot::trade::{Asset, BotMode, Order, OrderType, TradeSide};

fn test_app_config() -> AppConfig {
    AppConfig {
        bot: BotConfig {
            name: String::from("test-bot"),
            log_level: String::from("info"),
            dry_run: true,
            mode: BotMode::Paper,
        },
        api: ApiConfig {
            clob_base_url: String::from("https://clob.example"),
            clob_ws_url: String::from("wss://clob.example/ws"),
            rpc_url: String::from("https://rpc.example"),
            timeout_ms: 30_000,
        },
        lmsr: LmsrConfig {
            liquidity_parameter: 100_000_000,
            kelly_fraction: 250_000,
            min_edge: 20_000,
            prior_weight: 1_000_000,
        },
        risk: RiskConfig {
            max_daily_loss_fraction: 300_000,
            max_position_size: 100_000_000,
            max_total_exposure: 500_000_000,
            min_bankroll: 50_000_000,
            circuit_breaker_losses: 5,
            cooldown_seconds: 300,
        },
        rate_limits: RateLimitConfig {
            max_orders_per_minute: 50,
            max_orders_per_batch: 15,
            min_interval_ms: 0,
        },
        contracts: ContractConfig {
            ctf_exchange: String::from("0x1"),
            usdce: String::from("0x2"),
            neg_risk_adapter: String::from("0x3"),
        },
        markets: vec![MarketConfig {
            condition_id: String::from("cond-1"),
            yes_token_id: String::from("yes-1"),
            no_token_id: String::from("no-1"),
            asset: Asset::BTC,
            active: true,
        }],
        strategy: StrategyConfig {
            assets: vec![Asset::BTC],
            debounce_ms: 1_000,
            min_delta_pct: 5_000,
        },
        wallet: WalletConfig::default(),
        settlement: SettlementConfig::default(),
    }
}

fn update(mid: Option<u64>, best_bid: Option<u64>, best_ask: Option<u64>, ts: u64) -> PriceUpdate {
    PriceUpdate {
        market_id: String::from("cond-1"),
        token_id: String::from("yes-1"),
        best_bid,
        best_ask,
        mid_price: mid,
        timestamp_ms: ts,
        bid_size: None,
        ask_size: None,
    }
}

#[test]
fn clear_edge_emits_one_buy_order() {
    let mut engine = ArbitrageEngine::new(&test_app_config());
    let mut venue = PaperExecution::new(1_000_000_000);

    // mid = ask = 0.40: fair equals the ask, no edge, no trade.
    let first = engine.process_update(&update(Some(400_000), None, Some(400_000), 1_000), 1_000);
    assert!(matches!(first, SignalOutcome::EdgeTooSmall));

    // mid = 0.50 against ask = 0.40: a clear ten-cent edge.
    let second = engine.process_update(&update(Some(500_000), None, Some(400_000), 2_000), 2_000);
    let signal = match second {
        SignalOutcome::NeedBankroll(sig) => sig,
        other => panic!("expected a signal, got {other:?}"),
    };
    assert_eq!(signal.prob, 500_000);
    assert_eq!(signal.fair, 500_000);
    assert_eq!(signal.edge, 100_000);
    assert!(signal.is_buy);

    let bankroll = venue.available_balance();
    let order = match engine.size_and_place(&signal, bankroll, 2_000) {
        ActOutcome::Submit(order) => order,
        other => panic!("expected an order, got {other:?}"),
    };
    assert_eq!(order.side, TradeSide::Buy);
    assert_eq!(order.price, 500_000);
    assert_eq!(order.size, 41_660_000);

    let placement = venue.place_order(&order, 2_000);
    assert!(placement.accepted);
    engine.on_placement(&order, &placement, 2_000);
    assert_eq!(engine.order_manager.open_order_count(), 1);
}

#[test]
fn no_edge_changes_only_the_estimate() {
    let mut engine = ArbitrageEngine::new(&test_app_config());
    let outcome = engine.process_update(&update(Some(500_000), None, Some(500_000), 1_000), 1_000);
    assert!(matches!(outcome, SignalOutcome::EdgeTooSmall));
    assert_eq!(engine.estimator.current_prob(), Some(500_000));
    assert_eq!(engine.order_manager.open_order_count(), 0);
    assert_eq!(engine.risk_manager.daily_loss(), 0);
}

#[test]
fn circuit_breaker_blocks_after_five_losses() {
    let mut engine = ArbitrageEngine::new(&test_app_config());
    for i in 0..5u64 {
        engine.record_trade(-1_000_000, 1_000 + i);
    }
    assert!(engine.risk_manager.is_circuit_breaker_active());
    let outcome = engine.process_update(&update(Some(500_000), None, Some(400_000), 2_000), 2_000);
    assert!(matches!(outcome, SignalOutcome::RiskBlocked));
    // Released once the cooldown has elapsed in simulated time.
    assert!(!engine.risk_manager.can_trade(1_004 + 299_999));
    assert!(engine.risk_manager.can_trade(1_004 + 300_000));
}

#[test]
fn rate_limit_allows_two_of_three_quick_orders() {
    let mut config = test_app_config();
    config.rate_limits.max_orders_per_minute = 2;
    config.rate_limits.min_interval_ms = 0;
    let mut om = OrderManager::new(&config);
    let token = String::from("yes-1");

    let mut placed = 0;
    let mut skipped_rate = 0;
    for i in 0..3u64 {
        match om.place_maker_order(&token, 500_000, 10_000_000, true, 1_000 + i) {
            PlacementDecision::Submit(order) => {
                let placement = OrderPlacement {
                    order_id: format!("ord-{i}"),
                    accepted: true,
                    rejection_reason: None,
                    timestamp_ms: 1_000 + i,
                };
                om.on_placement(&order, &placement, 1_000 + i);
                placed += 1;
            }
            PlacementDecision::SkippedRate => skipped_rate += 1,
            PlacementDecision::SkippedInterval => panic!("interval is zero"),
        }
    }
    assert_eq!(placed, 2);
    assert_eq!(skipped_rate, 1);
    // A minute later the budget is free again.
    assert!(matches!(
        om.place_maker_order(&token, 500_000, 10_000_000, true, 62_000),
        PlacementDecision::Submit(_)
    ));
}

#[test]
fn min_interval_skips_rapid_orders() {
    let mut config = test_app_config();
    config.rate_limits.min_interval_ms = 500;
    let mut om = OrderManager::new(&config);
    let token = String::from("yes-1");

    let order = match om.place_maker_order(&token, 500_000, 10_000_000, true, 1_000) {
        PlacementDecision::Submit(order) => order,
        other => panic!("expected an order, got {other:?}"),
    };
    let placement = OrderPlacement {
        order_id: String::from("ord-0"),
        accepted: true,
        rejection_reason: None,
        timestamp_ms: 1_000,
    };
    om.on_placement(&order, &placement, 1_000);
    assert!(matches!(
        om.place_maker_order(&token, 500_000, 10_000_000, true, 1_200),
        PlacementDecision::SkippedInterval
    ));
    assert!(matches!(
        om.place_maker_order(&token, 500_000, 10_000_000, true, 1_600),
        PlacementDecision::Submit(_)
    ));
}

#[test]
fn rejections_do_not_consume_rate_budget() {
    let mut config = test_app_config();
    config.rate_limits.max_orders_per_minute = 1;
    let mut om = OrderManager::new(&config);
    let token = String::from("yes-1");
    for i in 0..3u64 {
        let order = match om.place_maker_order(&token, 500_000, 10_000_000, true, 1_000 + i) {
            PlacementDecision::Submit(order) => order,
            other => panic!("expected an order, got {other:?}"),
        };
        let rejection = OrderPlacement {
            order_id: String::new(),
            accepted: false,
            rejection_reason: Some(String::from("post-only would cross")),
            timestamp_ms: 1_000 + i,
        };
        om.on_placement(&order, &rejection, 1_000 + i);
    }
    assert_eq!(om.open_order_count(), 0);
}

#[test]
fn debounce_suppresses_small_move() {
    let mut feed = FeedState::new(5_000);
    let market = String::from("cond-1");
    let token = String::from("yes-1");
    // First usable update always emits (mid 0.500).
    let first = feed.ingest(&market, &token, Some(500_000), Some(500_000), None, None, 1, 1_000);
    assert!(matches!(first, IngestOutcome::Emit(_)));
    // 0.5012 is a 0.24% move: below the 0.5% threshold.
    let second = feed.ingest(&market, &token, Some(501_200), Some(501_200), None, None, 2, 2_000);
    assert!(matches!(second, IngestOutcome::Debounced));
    // A full percent passes.
    let third = feed.ingest(&market, &token, Some(505_000), Some(505_000), None, None, 3, 3_000);
    assert!(matches!(third, IngestOutcome::Emit(_)));
}

#[test]
fn stale_sequence_is_dropped() {
    let mut feed = FeedState::new(5_000);
    let market = String::from("cond-1");
    let token = String::from("yes-1");
    let first = feed.ingest(&market, &token, Some(500_000), Some(500_000), None, None, 5, 1_000);
    assert!(matches!(first, IngestOutcome::Emit(_)));
    let replay = feed.ingest(&market, &token, Some(600_000), Some(600_000), None, None, 5, 2_000);
    assert!(matches!(replay, IngestOutcome::OutOfOrder));
    assert!(feed.last_snapshot(&token).unwrap().sequence == 5);
}

#[test]
fn shutdown_halts_and_cancels_once() {
    let mut engine = ArbitrageEngine::new(&test_app_config());
    let mut venue = PaperExecution::new(1_000_000_000);

    // Get one order onto the book first.
    let signal = match engine.process_update(&update(Some(500_000), None, Some(400_000), 1_000), 1_000) {
        SignalOutcome::NeedBankroll(sig) => sig,
        other => panic!("expected a signal, got {other:?}"),
    };
    let order = match engine.size_and_place(&signal, venue.available_balance(), 1_000) {
        ActOutcome::Submit(order) => order,
        other => panic!("expected an order, got {other:?}"),
    };
    let placement = venue.place_order(&order, 1_000);
    engine.on_placement(&order, &placement, 1_000);
    assert_eq!(engine.order_manager.open_order_count(), 1);

    // The first shutdown call asks for the venue-wide cancel; later
    // calls do not.
    assert!(engine.begin_shutdown());
    assert!(!engine.begin_shutdown());

    // No further orders are accepted.
    let halted = engine.process_update(&update(Some(500_000), None, Some(400_000), 2_000), 2_000);
    assert!(matches!(halted, SignalOutcome::Halted));

    // Drain: cancel everything at the venue, then locally.
    let cancelled = venue.cancel_all_orders();
    assert_eq!(cancelled, 1);
    assert_eq!(engine.on_cancel_all(cancelled), 1);
    assert_eq!(engine.order_manager.open_order_count(), 0);
}

#[test]
fn cancel_all_is_idempotent() {
    let mut venue = PaperExecution::new(1_000_000_000);
    let order = lmsr_bot::trade::Order::new_maker(
        String::from("yes-1"),
        TradeSide::Buy,
        500_000,
        10_000_000,
    );
    venue.place_order(&order, 1_000);
    venue.place_order(&order, 1_001);
    assert_eq!(venue.cancel_all_orders(), 2);
    assert_eq!(venue.cancel_all_orders(), 0);
    assert_eq!(venue.cancel_all_orders(), 0);
    // New orders start a new count.
    venue.place_order(&order, 1_002);
    assert_eq!(venue.cancel_all_orders(), 1);
}

#[test]
fn paper_venue_assigns_sequential_ids() {
    let mut venue = PaperExecution::new(0);
    let order = lmsr_bot::trade::Order::new_maker(
        String::from("yes-1"),
        TradeSide::Sell,
        600_000,
        2_000_000,
    );
    let a = venue.place_order(&order, 1);
    let b = venue.place_order(&order, 2);
    assert_eq!(a.order_id, "paper-0");
    assert_eq!(b.order_id, "paper-1");
    assert_eq!(venue.get_open_orders().len(), 2);
    assert_eq!(venue.get_open_orders()[0].id, "paper-0");
}

#[test]
fn quote_validity_and_mid() {
    let quote = Quote {
        token_id: String::from("yes-1"),
        bid_price: 480_000,
        ask_price: 520_000,
        bid_size: 10_000_000,
        ask_size: 10_000_000,
        spread_bps: 800,
    };
    assert!(quote.is_valid());
    assert_eq!(quote.mid_price(), 500_000);
    let crossed = Quote { ask_price: 470_000, ..quote.clone() };
    assert!(!crossed.is_valid());
    let empty_side = Quote { bid_size: 0, ..quote };
    assert!(!empty_side.is_valid());
}

#[test]
fn snapshot_restore_rebuilds_state() {
    let mut engine = ArbitrageEngine::new(&test_app_config());
    let snapshot = BotStateSnapshot {
        version: String::from("1"),
        timestamp_ms: 5_000,
        open_orders: vec![
            Order {
                id: String::from("ord-1"),
                token_id: String::from("yes-1"),
                side: TradeSide::Buy,
                price: 500_000,
                size: 41_660_000,
                order_type: OrderType::Gtc,
                post_only: true,
                timestamp_ms: 4_000,
            },
        ],
        positions: Vec::new(),
        cumulative_pnl: -7_000_000,
        daily_loss: 7_000_000,
    };
    engine.restore_snapshot(&snapshot);
    assert_eq!(engine.order_manager.open_order_count(), 1);
    assert_eq!(engine.order_manager.open_orders[0].0, "ord-1");
    assert_eq!(engine.cumulative_pnl, -7_000_000);
    assert_eq!(engine.risk_manager.daily_loss(), 7_000_000);
    // Limits and breaker are untouched.
    assert!(engine.risk_manager.can_trade(6_000));
}

#[test]
fn record_trade_tracks_cumulative_tally() {
    let mut engine = ArbitrageEngine::new(&test_app_config());
    engine.record_trade(3_000_000, 1_000);
    engine.record_trade(-1_000_000, 2_000);
    assert_eq!(engine.cumulative_pnl, 2_000_000);
    assert_eq!(engine.risk_manager.daily_loss(), 1_000_000);
}

#[test]
fn sell_signal_against_rich_bid() {
    let mut engine = ArbitrageEngine::new(&test_app_config());
    // Fair 0.40 while the best bid stands at 0.50: sell edge 0.10.
    let outcome = engine.process_update(&update(Some(400_000), Some(500_000), None, 1_000), 1_000);
    let signal = match outcome {
        SignalOutcome::NeedBankroll(sig) => sig,
        other => panic!("expected a signal, got {other:?}"),
    };
    assert!(!signal.is_buy);
    assert_eq!(signal.edge, 100_000);
    let order = match engine.size_and_place(&signal, 1_000_000_000, 1_000) {
        ActOutcome::Submit(order) => order,
        other => panic!("expected an order, got {other:?}"),
    };
    assert_eq!(order.side, TradeSide::Sell);
    assert_eq!(order.price, 400_000);
}
