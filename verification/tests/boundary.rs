//! Boundary helpers: authentication, wire parsing, retry policy,
//! persistence layout, configuration validation and number formatting.

use lmsr_bot::auth::ClobAuth;
use lmsr_bot::clob::{
    classify_http_status, parse_units, retry_delay_ms, venue_order_status, ClobClientConfig,
    RetryDecision,
};
use lmsr_bot::config::{
    validate_config, ApiConfig, AppConfig, BotConfig, ConfigError, ContractConfig, LmsrConfig,
    MarketConfig, RateLimitConfig, RiskConfig, SettlementConfig, StrategyConfig, WalletConfig,
};
use lmsr_bot::trade::{Asset, BotMode};
use lmsr_bot::numfmt::u64_to_string;
use lmsr_bot::persistence::{filter_trades_range, RepositoryImpl, StateStore, TradeLogger};
use lmsr_bot::ports::{TradeRecord, VenueOrderStatus};

#[test]
fn sign_matches_reference_hmac() {
    let auth = ClobAuth::new(
        String::from("key-id"),
        String::from("topsecret"),
        String::from("phrase"),
        7,
    );
    // Reference tag computed independently for
    // HMAC-SHA256("1700000000" + "GET" + "/time" + "", "topsecret").
    let sig = auth.sign("1700000000", "GET", "/time", "");
    assert_eq!(sig, "Uw/oaxTQzKtuQv8/g5LBq45mlJhvvlNN07/DPTxdZWY=");
    let via_result = auth.sign_request("1700000000", "GET", "/time", "").unwrap();
    assert_eq!(via_result, sig);
}

#[test]
fn auth_headers_carry_key_and_passphrase() {
    let auth = ClobAuth::new(
        String::from("key-id"),
        String::from("topsecret"),
        String::from("phrase"),
        7,
    );
    let (key, timestamp, signature, passphrase) = auth.auth_headers("GET", "/time", "");
    assert_eq!(key, "key-id");
    assert_eq!(passphrase, "phrase");
    assert!(!timestamp.is_empty());
    // Base64 of a 32-byte tag is always 44 characters.
    assert_eq!(signature.len(), 44);
    assert_eq!(auth.api_key(), "key-id");
    assert_eq!(auth.passphrase(), "phrase");
    let creds = auth.credentials().unwrap();
    assert_eq!(creds.api_key, "key-id");
    assert_eq!(creds.api_passphrase, "phrase");
}

#[test]
fn nonces_increment_from_seed() {
    let mut auth = ClobAuth::new(String::new(), String::new(), String::new(), 1_000);
    assert_eq!(auth.generate_nonce(), 1_000);
    assert_eq!(auth.generate_nonce(), 1_001);
    assert_eq!(auth.generate_nonce(), 1_002);
}

#[test]
fn timestamp_is_nonempty_decimal() {
    let ts = ClobAuth::timestamp();
    assert!(!ts.is_empty());
    assert!(ts.chars().all(|c| c.is_ascii_digit()));
}

#[test]
fn parse_units_accepts_venue_decimals() {
    assert_eq!(parse_units("0.45"), Some(450_000));
    assert_eq!(parse_units("12"), Some(12_000_000));
    assert_eq!(parse_units("1.5"), Some(1_500_000));
    assert_eq!(parse_units("0.123456"), Some(123_456));
    assert_eq!(parse_units("50000"), Some(50_000_000_000));
}

#[test]
fn parse_units_rejects_malformed_text() {
    assert_eq!(parse_units(""), None);
    assert_eq!(parse_units("."), None);
    assert_eq!(parse_units("1."), None);
    assert_eq!(parse_units(".5"), None);
    assert_eq!(parse_units("0.1234567"), None);
    assert_eq!(parse_units("abc"), None);
    assert_eq!(parse_units("1.2.3"), None);
    assert_eq!(parse_units("-1"), None);
    assert_eq!(parse_units("99999999999999999999999"), None);
}

#[test]
fn http_statuses_classify_by_retry_policy() {
    assert_eq!(classify_http_status(200), RetryDecision::Succeed);
    assert_eq!(classify_http_status(201), RetryDecision::Succeed);
    assert_eq!(classify_http_status(429), RetryDecision::RetryRateLimited);
    assert_eq!(classify_http_status(500), RetryDecision::RetryServerError);
    assert_eq!(classify_http_status(503), RetryDecision::RetryServerError);
    assert_eq!(classify_http_status(400), RetryDecision::FailPermanent);
    assert_eq!(classify_http_status(404), RetryDecision::FailPermanent);
}

#[test]
fn retry_backoff_doubles_from_base() {
    assert_eq!(retry_delay_ms(200, 1), 200);
    assert_eq!(retry_delay_ms(200, 2), 400);
    assert_eq!(retry_delay_ms(200, 3), 800);
    assert_eq!(retry_delay_ms(200, 5), 3_200);
}

#[test]
fn venue_statuses_map_to_order_states() {
    let open = venue_order_status(&String::from("OPEN"), 3_000_000, 5_000_000, 0, 0);
    assert_eq!(open, VenueOrderStatus::Open { remaining_size: 3_000_000, original_size: 5_000_000 });
    let live = venue_order_status(&String::from("LIVE"), 1, 2, 0, 0);
    assert!(matches!(live, VenueOrderStatus::Open { .. }));
    let filled = venue_order_status(&String::from("MATCHED"), 0, 0, 5_000_000, 450_000);
    assert_eq!(filled, VenueOrderStatus::Filled { avg_price: 450_000, filled_size: 5_000_000 });
    let cancelled = venue_order_status(&String::from("EXPIRED"), 0, 0, 0, 0);
    assert_eq!(cancelled, VenueOrderStatus::Cancelled);
    let unknown = venue_order_status(&String::from("???"), 0, 0, 0, 0);
    assert_eq!(unknown, VenueOrderStatus::Unknown);
}

#[test]
fn default_client_config_targets_production() {
    let config = ClobClientConfig::default();
    assert_eq!(config.base_url, "https://clob.polymarket.com");
    assert_eq!(config.timeout_ms, 30_000);
    assert_eq!(config.max_retries, 3);
    assert_eq!(config.retry_base_delay_ms, 200);
}

fn record(id: &str, ts: u64) -> TradeRecord {
    TradeRecord {
        id: String::from(id),
        order_id: String::from("ord-1"),
        market_id: String::from("cond-1"),
        side: String::from("BUY"),
        price: 500_000,
        size: 10_000_000,
        lmsr_fair_value: 510_000,
        edge: 10_000,
        kelly_fraction: 250_000,
        fees: 0,
        timestamp_ms: ts,
    }
}

#[test]
fn persistence_paths_follow_layout() {
    let store = StateStore::new("data");
    assert_eq!(store.state_path, "data/state.json");
    assert_eq!(store.tmp_path, "data/state.json.tmp");
    let logger = TradeLogger::new("data");
    assert_eq!(logger.trades_dir, "data/trades");
    assert_eq!(logger.pnl_dir, "data/pnl");
    // 2024-01-15 10:00:00 UTC.
    assert_eq!(logger.trade_file_path(1_705_312_800_000), "data/trades/2024-01-15.jsonl");
    assert_eq!(logger.pnl_file_path(), "data/pnl/daily_pnl.jsonl");
    let repo = RepositoryImpl::new(StateStore::new("data"), TradeLogger::new("data"));
    assert_eq!(repo.state_store.state_path, "data/state.json");
}

#[test]
fn trade_range_filter_keeps_only_window() {
    let trades = vec![record("a", 10), record("b", 20), record("c", 30), record("d", 40)];
    let kept = filter_trades_range(trades, 15, 35);
    assert_eq!(kept.len(), 2);
    assert_eq!(kept[0].id, "b");
    assert_eq!(kept[1].id, "c");
}

#[test]
fn u64_formatting_matches_decimal() {
    assert_eq!(u64_to_string(0), "0");
    assert_eq!(u64_to_string(7), "7");
    assert_eq!(u64_to_string(12_345), "12345");
    assert_eq!(u64_to_string(u64::MAX), "18446744073709551615");
}

#[test]
fn config_validation_names_first_broken_rule() {
    let mut config = valid_config();
    assert_eq!(validate_config(&config), Ok(()));

    config.markets.clear();
    assert_eq!(validate_config(&config), Err(ConfigError::NoMarkets));

    let mut config = valid_config();
    config.markets[0].yes_token_id = String::new();
    assert_eq!(validate_config(&config), Err(ConfigError::EmptyYesTokenId { index: 0 }));

    let mut config = valid_config();
    config.lmsr.kelly_fraction = 0;
    assert_eq!(validate_config(&config), Err(ConfigError::KellyFractionOutOfRange));

    let mut config = valid_config();
    config.rate_limits.max_orders_per_minute = 51;
    assert_eq!(validate_config(&config), Err(ConfigError::OrdersPerMinuteOutOfRange));

    let mut config = valid_config();
    config.api.clob_base_url = String::new();
    assert_eq!(validate_config(&config), Err(ConfigError::EmptyClobUrl));
}

fn valid_config() -> AppConfig {
    AppConfig {
        bot: BotConfig {
            name: String::from("bot"),
            log_level: String::from("info"),
            dry_run: true,
            mode: BotMode::Paper,
        },
        api: ApiConfig {
            clob_base_url: String::from("https://clob.example"),
            clob_ws_url: String::from("wss://clob.example/ws"),
            rpc_url: String::from("https://rpc.example"),
            timeout_ms: 30_000,
        },
        lmsr: LmsrConfig {
            liquidity_parameter: 100_000_000,
            kelly_fraction: 250_000,
            min_edge: 20_000,
            prior_weight: 700_000,
        },
        risk: RiskConfig {
            max_daily_loss_fraction: 300_000,
            max_position_size: 100_000_000,
            max_total_exposure: 500_000_000,
            min_bankroll: 50_000_000,
            circuit_breaker_losses: 5,
            cooldown_seconds: 300,
        },
        rate_limits: RateLimitConfig {
            max_orders_per_minute: 50,
            max_orders_per_batch: 15,
            min_interval_ms: 0,
        },
        contracts: ContractConfig {
            ctf_exchange: String::from("0x1"),
            usdce: String::from("0x2"),
            neg_risk_adapter: String::from("0x3"),
        },
        markets: vec![MarketConfig {
            condition_id: String::from("cond-1"),
            yes_token_id: String::from("yes-1"),
            no_token_id: String::from("no-1"),
            asset: Asset::BTC,
            active: true,
        }],
        strategy: StrategyConfig {
            assets: vec![Asset::BTC],
            debounce_ms: 1_000,
            min_delta_pct: 5_000,
        },
        wallet: WalletConfig::default(),
        settlement: SettlementConfig::default(),
    }
}
