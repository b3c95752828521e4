//! Boundary types exchanged with the execution venue, the market feed
//! and the persistence layer.
//!
//! These are plain values: the transports that carry them live outside
//! the library and hand them in as arguments.

use vstd::prelude::*;

use crate::trade::Order;

verus! {

/// Result of an order placement attempt.
#[derive(Debug, Clone)]
pub struct OrderPlacement {
    /// Venue-assigned order id.
    pub order_id: String,
    /// Whether the order was accepted.
    pub accepted: bool,
    /// Rejection reason when not accepted.
    pub rejection_reason: Option<String>,
    /// Venue timestamp of the placement, Unix milliseconds.
    pub timestamp_ms: u64,
}

/// Result of an order cancellation attempt.
#[derive(Debug, Clone)]
pub struct OrderCancellation {
    /// The order the attempt was for.
    pub order_id: String,
    /// Whether the cancellation succeeded.
    pub success: bool,
    /// Error message when it failed.
    pub error: Option<String>,
}

/// Venue-side status of an order.
#[derive(Debug, Clone, PartialEq, Structural)]
pub enum VenueOrderStatus {
    /// Live on the book.
    Open { remaining_size: u64, original_size: u64 },
    /// Fully filled.
    Filled { avg_price: u64, filled_size: u64 },
    /// Partially filled, remainder on the book.
    PartiallyFilled { filled_size: u64, remaining_size: u64, avg_price: u64 },
    /// Cancelled or expired.
    Cancelled,
    /// Unknown to the venue.
    Unknown,
}

/// A real-time price update from the order book of one token.
#[derive(Debug, Clone)]
pub struct PriceUpdate {
    /// Market condition identifier.
    pub market_id: String,
    /// Token identifier.
    pub token_id: String,
    /// Best bid price in micro-units, when a bid rests.
    pub best_bid: Option<u64>,
    /// Best ask price in micro-units, when an ask rests.
    pub best_ask: Option<u64>,
    /// Mid price in micro-units, when both sides rest.
    pub mid_price: Option<u64>,
    /// Update time, Unix milliseconds.
    pub timestamp_ms: u64,
    /// Volume at the best bid, micro-contracts.
    pub bid_size: Option<u64>,
    /// Volume at the best ask, micro-contracts.
    pub ask_size: Option<u64>,
}

/// Order book snapshot for a single token at the feed boundary.
#[derive(Debug, Clone)]
pub struct BookSnapshot {
    /// Token identifier.
    pub token_id: String,
    /// Bid levels as (price, size) pairs, prices descending.
    pub bids: Vec<(u64, u64)>,
    /// Ask levels as (price, size) pairs, prices ascending.
    pub asks: Vec<(u64, u64)>,
    /// Sequence number for ordering.
    pub sequence: u64,
    /// Snapshot time, Unix milliseconds.
    pub timestamp_ms: u64,
}

/// A trade record persisted to the append-only log.
#[derive(Debug, Clone)]
pub struct TradeRecord {
    /// Unique trade identifier.
    pub id: String,
    /// Order that produced the trade.
    pub order_id: String,
    /// Market the trade belongs to.
    pub market_id: String,
    /// Side label, "BUY" or "SELL".
    pub side: String,
    /// Execution price, micro-units.
    pub price: u64,
    /// Trade size, micro-contracts.
    pub size: u64,
    /// Fair value at the time of the trade, micro-units.
    pub lmsr_fair_value: u64,
    /// Edge captured, signed micro-units.
    pub edge: i64,
    /// Kelly fraction used for sizing, micro-units.
    pub kelly_fraction: u64,
    /// Fees paid, micro-units.
    pub fees: u64,
    /// Trade time, Unix milliseconds.
    pub timestamp_ms: u64,
}

/// Daily profit-and-loss summary.
#[derive(Debug, Clone)]
pub struct DailyPnl {
    /// Date string, `YYYY-MM-DD`.
    pub date: String,
    /// Realized profit and loss, signed micro-units.
    pub realized_pnl: i64,
    /// Unrealized profit and loss, signed micro-units.
    pub unrealized_pnl: i64,
    /// Number of trades.
    pub trade_count: u64,
    /// Total volume traded, micro-units.
    pub volume: u64,
    /// Maximum drawdown during the day, micro-units.
    pub max_drawdown: u64,
}

/// Bot state snapshot for crash recovery.
#[derive(Debug, Clone)]
pub struct BotStateSnapshot {
    /// Version of the snapshot format.
    pub version: String,
    /// Snapshot time, Unix milliseconds.
    pub timestamp_ms: u64,
    /// Currently open orders.
    pub open_orders: Vec<Order>,
    /// Position sizes per token, micro-contracts.
    pub positions: Vec<(String, u64)>,
    /// Cumulative profit and loss, signed micro-units.
    pub cumulative_pnl: i64,
    /// Loss so far today, micro-units.
    pub daily_loss: u64,
}

/// On-chain token balance information.
#[derive(Debug, Clone)]
pub struct TokenBalance {
    /// Token identifier.
    pub token_id: String,
    /// Balance in the token's atomic units.
    pub balance_raw: u128,
    /// Balance in micro-units of the human denomination.
    pub balance: u64,
}

/// Result of a batch redemption.
#[derive(Debug, Clone)]
pub struct RedemptionResult {
    /// Transaction hash.
    pub tx_hash: String,
    /// Number of positions redeemed.
    pub positions_redeemed: usize,
    /// Total recovered, micro-USDC.
    pub usdc_recovered: u64,
    /// Gas spent, micro-units of the gas token.
    pub gas_cost_matic: u64,
}

} // verus!
