//! Bot configuration: the structures read from the TOML file and the
//! validation rules applied after parsing.
//!
//! Fractions and prices are micro-units; times are milliseconds or
//! seconds as named.  Parsing the file is boundary work; validation is
//! pure and fully specified: `validate_config` returns the first rule a
//! configuration breaks, exactly as `spec_validate_config` names it.

use vstd::prelude::*;

use crate::fixed::SCALE;
use crate::trade::{Asset, BotMode};

verus! {

/// Bot identity and operational settings.
#[derive(Debug, Clone)]
pub struct BotConfig {
    /// Human-readable bot name for logging.
    pub name: String,
    /// Log level filter, e.g. "info".
    pub log_level: String,
    /// If true, simulate trades without real execution.
    pub dry_run: bool,
    /// Operating mode.
    pub mode: BotMode,
}

/// API endpoint configuration; secrets never appear here.
#[derive(Debug, Clone)]
pub struct ApiConfig {
    /// CLOB REST base URL.
    pub clob_base_url: String,
    /// CLOB WebSocket URL.
    pub clob_ws_url: String,
    /// Chain RPC URL.
    pub rpc_url: String,
    /// Request timeout in milliseconds.
    pub timeout_ms: u64,
}

/// LMSR model and pricing parameters.
#[derive(Debug, Clone)]
pub struct LmsrConfig {
    /// Liquidity parameter in micro-units; must be positive.
    pub liquidity_parameter: u64,
    /// Kelly fraction in micro-units (250_000 is quarter-Kelly).
    pub kelly_fraction: u64,
    /// Minimum edge in micro-units to act on a signal.
    pub min_edge: u64,
    /// Bayesian EWMA weight in micro-units.
    pub prior_weight: u64,
}

/// Risk management parameters.
#[derive(Debug, Clone)]
pub struct RiskConfig {
    /// Maximum daily loss as a fraction of bankroll, micro-units.
    pub max_daily_loss_fraction: u64,
    /// Maximum position size per market, micro-USDC.
    pub max_position_size: u64,
    /// Maximum total exposure, micro-USDC.
    pub max_total_exposure: u64,
    /// Minimum bankroll to continue trading, micro-USDC.
    pub min_bankroll: u64,
    /// Consecutive losses that trip the circuit breaker.
    pub circuit_breaker_losses: u32,
    /// Cooldown after a trip, seconds.
    pub cooldown_seconds: u64,
}

/// Rate limiting parameters.
#[derive(Debug, Clone)]
pub struct RateLimitConfig {
    /// Maximum orders per rolling minute (at most 50).
    pub max_orders_per_minute: u32,
    /// Maximum orders per batch request.
    pub max_orders_per_batch: u32,
    /// Minimum interval between orders, milliseconds.
    pub min_interval_ms: u64,
}

/// On-chain contract addresses, validated at startup.
#[derive(Debug, Clone)]
pub struct ContractConfig {
    /// Exchange contract address.
    pub ctf_exchange: String,
    /// USDC token contract address.
    pub usdce: String,
    /// Negative-risk adapter contract address.
    pub neg_risk_adapter: String,
}

/// One market to trade.
#[derive(Debug, Clone)]
pub struct MarketConfig {
    /// Unique condition id.
    pub condition_id: String,
    /// YES outcome token id.
    pub yes_token_id: String,
    /// NO outcome token id.
    pub no_token_id: String,
    /// Asset the market tracks.
    pub asset: Asset,
    /// Whether this market is actively traded.
    pub active: bool,
}

/// Strategy parameters shared across markets.
#[derive(Debug, Clone)]
pub struct StrategyConfig {
    /// Assets to trade.
    pub assets: Vec<Asset>,
    /// Debounce interval in milliseconds.
    pub debounce_ms: u64,
    /// Minimum relative mid-price change to act on, micro-units.
    pub min_delta_pct: u64,
}

/// Wallet allocation parameters.
#[derive(Debug, Clone)]
pub struct WalletConfig {
    /// Hot wallet allocation fraction, micro-units.
    pub hot_fraction: u64,
    /// Minimum gas-token balance, micro-units.
    pub min_matic_balance: u64,
    /// Warn when the hot wallet exceeds this fraction, micro-units.
    pub hot_alert_threshold: u64,
}

impl Default for WalletConfig {
    /// A fifth of funds hot, half a token for gas, warn at thirty
    /// percent.
    fn default() -> (r: WalletConfig)
        ensures
            r.hot_fraction == 200_000,
            r.min_matic_balance == 500_000,
            r.hot_alert_threshold == 300_000,
    {
        WalletConfig {
            hot_fraction: 200_000,
            min_matic_balance: 500_000,
            hot_alert_threshold: 300_000,
        }
    }
}

/// The default hour (UTC) for the daily batch redemption run.
pub fn default_redeem_hour() -> (r: u32)
    ensures
        r == 4,
{
    4
}

/// Settlement parameters for batch redemption.
#[derive(Debug, Clone)]
pub struct SettlementConfig {
    /// Hour (UTC) to run batch redemption.
    pub batch_redeem_hour_utc: u32,
    /// Maximum gas price for redemption, micro-gwei.
    pub max_gas_gwei: u64,
    /// Priority-fee tip, micro-gwei.
    pub tip_gwei: u64,
    /// Fee cap, micro-gwei.
    pub max_fee_gwei: u64,
}

impl Default for SettlementConfig {
    /// Redeem at four in the morning UTC when gas is at most 35 gwei,
    /// with a 30 gwei tip under a 50 gwei cap.
    fn default() -> (r: SettlementConfig)
        ensures
            r.batch_redeem_hour_utc == 4,
            r.max_gas_gwei == 35_000_000,
            r.tip_gwei == 30_000_000,
            r.max_fee_gwei == 50_000_000,
    {
        SettlementConfig {
            batch_redeem_hour_utc: 4,
            max_gas_gwei: 35_000_000,
            tip_gwei: 30_000_000,
            max_fee_gwei: 50_000_000,
        }
    }
}

/// Top-level application configuration.
#[derive(Debug, Clone)]
pub struct AppConfig {
    /// Bot identity and operating mode.
    pub bot: BotConfig,
    /// API and RPC connection settings.
    pub api: ApiConfig,
    /// LMSR model parameters.
    pub lmsr: LmsrConfig,
    /// Risk management parameters.
    pub risk: RiskConfig,
    /// Rate limiting parameters.
    pub rate_limits: RateLimitConfig,
    /// Contract addresses.
    pub contracts: ContractConfig,
    /// Markets to trade.
    pub markets: Vec<MarketConfig>,
    /// Strategy parameters.
    pub strategy: StrategyConfig,
    /// Wallet allocation parameters.
    pub wallet: WalletConfig,
    /// Settlement parameters.
    pub settlement: SettlementConfig,
}

/// The rule a configuration breaks, found by `validate_config`.
#[derive(Debug, Clone, Copy, PartialEq, Eq, Structural)]
pub enum ConfigError {
    /// No market is configured.
    NoMarkets,
    /// The market at this index has an empty condition id.
    EmptyConditionId { index: usize },
    /// The market at this index has an empty YES token id.
    EmptyYesTokenId { index: usize },
    /// The market at this index has an empty NO token id.
    EmptyNoTokenId { index: usize },
    /// No asset is configured for the strategy.
    NoAssets,
    /// The LMSR liquidity parameter is zero.
    NonPositiveLiquidity,
    /// The minimum edge is not below one.
    MinEdgeOutOfRange,
    /// The Kelly fraction is outside `(0, 1]`.
    KellyFractionOutOfRange,
    /// The Bayesian weight is outside `(0, 1]`.
    PriorWeightOutOfRange,
    /// The daily loss fraction is outside `(0, 1]`.
    DailyLossFractionOutOfRange,
    /// The maximum position size is zero.
    NonPositiveMaxPosition,
    /// The minimum bankroll is zero.
    NonPositiveMinBankroll,
    /// The breaker threshold is zero.
    NonPositiveBreakerLosses,
    /// Orders per minute is outside `(0, 50]`.
    OrdersPerMinuteOutOfRange,
    /// The REST base URL is empty.
    EmptyClobUrl,
    /// The WebSocket URL is empty.
    EmptyWsUrl,
}

/// Whether one market entry carries the three non-empty identifiers.
pub open spec fn spec_market_ok(m: MarketConfig) -> bool {
    &&& m.condition_id@.len() > 0
    &&& m.yes_token_id@.len() > 0
    &&& m.no_token_id@.len() > 0
}

/// The first broken identifier among the markets from `i` on, if any.
pub open spec fn spec_first_bad_market(ms: Seq<MarketConfig>, i: int) -> Option<ConfigError>
    decreases ms.len() - i when 0 <= i <= ms.len()
{
    if i >= ms.len() {
        None
    } else if ms[i].condition_id@.len() == 0 {
        Some(ConfigError::EmptyConditionId { index: i as usize })
    } else if ms[i].yes_token_id@.len() == 0 {
        Some(ConfigError::EmptyYesTokenId { index: i as usize })
    } else if ms[i].no_token_id@.len() == 0 {
        Some(ConfigError::EmptyNoTokenId { index: i as usize })
    } else {
        spec_first_bad_market(ms, i + 1)
    }
}

/// The first rule the configuration breaks, in the order the checks are
/// applied, or `None` for a valid configuration.
pub open spec fn spec_validate_config(c: AppConfig) -> Option<ConfigError> {
    if c.markets@.len() == 0 {
        Some(ConfigError::NoMarkets)
    } else if spec_first_bad_market(c.markets@, 0) is Some {
        spec_first_bad_market(c.markets@, 0)
    } else if c.strategy.assets@.len() == 0 {
        Some(ConfigError::NoAssets)
    } else if c.lmsr.liquidity_parameter == 0 {
        Some(ConfigError::NonPositiveLiquidity)
    } else if c.lmsr.min_edge >= SCALE {
        Some(ConfigError::MinEdgeOutOfRange)
    } else if c.lmsr.kelly_fraction == 0 || c.lmsr.kelly_fraction > SCALE {
        Some(ConfigError::KellyFractionOutOfRange)
    } else if c.lmsr.prior_weight == 0 || c.lmsr.prior_weight > SCALE {
        Some(ConfigError::PriorWeightOutOfRange)
    } else if c.risk.max_daily_loss_fraction == 0 || c.risk.max_daily_loss_fraction > SCALE {
        Some(ConfigError::DailyLossFractionOutOfRange)
    } else if c.risk.max_position_size == 0 {
        Some(ConfigError::NonPositiveMaxPosition)
    } else if c.risk.min_bankroll == 0 {
        Some(ConfigError::NonPositiveMinBankroll)
    } else if c.risk.circuit_breaker_losses == 0 {
        Some(ConfigError::NonPositiveBreakerLosses)
    } else if c.rate_limits.max_orders_per_minute == 0
        || c.rate_limits.max_orders_per_minute > 50 {
        Some(ConfigError::OrdersPerMinuteOutOfRange)
    } else if c.api.clob_base_url@.len() == 0 {
        Some(ConfigError::EmptyClobUrl)
    } else if c.api.clob_ws_url@.len() == 0 {
        Some(ConfigError::EmptyWsUrl)
    } else {
        None
    }
}

/// A configuration is valid when it breaks no rule.
pub open spec fn spec_config_valid(c: AppConfig) -> bool {
    spec_validate_config(c) is None
}

/// Validate a parsed configuration: positive numerics, fractions in
/// `(0, 1]`, non-empty identifiers and URLs, at least one market and one
/// asset.  Returns the first broken rule.
pub fn validate_config(config: &AppConfig) -> (r: Result<(), ConfigError>)
    ensures
        r == match spec_validate_config(*config) {
            None => Result::<(), ConfigError>::Ok(()),
            Some(e) => Result::<(), ConfigError>::Err(e),
        },
        r is Ok <==> spec_config_valid(*config),
{
    if config.markets.len() == 0 {
        return Err(ConfigError::NoMarkets);
    }
    let mut i: usize = 0;
    while i < config.markets.len()
        invariant
            0 <= i <= config.markets@.len(),
            spec_first_bad_market(config.markets@, 0) == spec_first_bad_market(
                config.markets@,
                i as int,
            ),
        decreases config.markets@.len() - i,
    {
        let m = &config.markets[i];
        if m.condition_id.as_str().unicode_len() == 0 {
            return Err(ConfigError::EmptyConditionId { index: i });
        }
        if m.yes_token_id.as_str().unicode_len() == 0 {
            return Err(ConfigError::EmptyYesTokenId { index: i });
        }
        if m.no_token_id.as_str().unicode_len() == 0 {
            return Err(ConfigError::EmptyNoTokenId { index: i });
        }
        i = i + 1;
    }
    if config.strategy.assets.len() == 0 {
        return Err(ConfigError::NoAssets);
    }
    if config.lmsr.liquidity_parameter == 0 {
        return Err(ConfigError::NonPositiveLiquidity);
    }
    if config.lmsr.min_edge >= SCALE {
        return Err(ConfigError::MinEdgeOutOfRange);
    }
    if config.lmsr.kelly_fraction == 0 || config.lmsr.kelly_fraction > SCALE {
        return Err(ConfigError::KellyFractionOutOfRange);
    }
    if config.lmsr.prior_weight == 0 || config.lmsr.prior_weight > SCALE {
        return Err(ConfigError::PriorWeightOutOfRange);
    }
    if config.risk.max_daily_loss_fraction == 0 || config.risk.max_daily_loss_fraction > SCALE {
        return Err(ConfigError::DailyLossFractionOutOfRange);
    }
    if config.risk.max_position_size == 0 {
        return Err(ConfigError::NonPositiveMaxPosition);
    }
    if config.risk.min_bankroll == 0 {
        return Err(ConfigError::NonPositiveMinBankroll);
    }
    if config.risk.circuit_breaker_losses == 0 {
        return Err(ConfigError::NonPositiveBreakerLosses);
    }
    if config.rate_limits.max_orders_per_minute == 0
        || config.rate_limits.max_orders_per_minute > 50 {
        return Err(ConfigError::OrdersPerMinuteOutOfRange);
    }
    if config.api.clob_base_url.as_str().unicode_len() == 0 {
        return Err(ConfigError::EmptyClobUrl);
    }
    if config.api.clob_ws_url.as_str().unicode_len() == 0 {
        return Err(ConfigError::EmptyWsUrl);
    }
    Ok(())
}

} // verus!
