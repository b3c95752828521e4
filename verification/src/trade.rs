//! Core trading domain types: assets, sides, orders, trades, positions,
//! markets and order-book snapshots.
//!
//! Prices and probabilities are micro-units in `(0, SCALE)`; sizes are
//! micro-units greater than zero.  Constructors state those invariants.

use vstd::prelude::*;

use crate::clock;
use crate::fixed::SCALE;

verus! {

/// Supported trading assets for the five-minute prediction markets.
#[derive(Debug, Clone, Copy, PartialEq, Eq, Hash, Structural)]
pub enum Asset {
    /// Bitcoin markets.
    BTC,
    /// Ethereum markets.
    ETH,
}

impl Asset {
    /// Upper-case ticker label for logs and file names.
    pub fn label(&self) -> (r: String)
        ensures
            self is BTC ==> r@ == "BTC"@,
            self is ETH ==> r@ == "ETH"@,
    {
        match self {
            Asset::BTC => String::from_str("BTC"),
            Asset::ETH => String::from_str("ETH"),
        }
    }
}

/// Trade side, shared by the domain and the execution boundary.
#[derive(Debug, Clone, Copy, PartialEq, Eq, Structural)]
pub enum TradeSide {
    Buy,
    Sell,
}

impl TradeSide {
    /// Upper-case wire label ("BUY" / "SELL").
    pub fn label(&self) -> (r: String)
        ensures
            self is Buy ==> r@ == "BUY"@,
            self is Sell ==> r@ == "SELL"@,
    {
        match self {
            TradeSide::Buy => String::from_str("BUY"),
            TradeSide::Sell => String::from_str("SELL"),
        }
    }
}

/// Order time-in-force.  `Gtc` (post-only implied) is the maker default;
/// `Gtd` carries an explicit expiration in seconds.
#[derive(Debug, Clone, Copy, PartialEq, Eq, Structural)]
pub enum OrderType {
    /// Good-til-cancelled, post-only.
    Gtc,
    /// Good-til-date with an expiration in seconds.
    Gtd { expiration_secs: u64 },
}

/// Lifecycle status of an order as tracked internally.
#[derive(Debug, Clone, Copy, PartialEq, Eq, Structural)]
pub enum OrderStatus {
    /// Created locally, not yet sent.
    Pending,
    /// Sent, awaiting placement.
    Submitted,
    /// Resting on the book.
    Open,
    /// Partially filled.
    PartiallyFilled,
    /// Completely filled.
    Filled,
    /// Cancelled or expired.
    Cancelled,
    /// Rejected by the venue.
    Rejected,
}

/// Bot operating mode.
#[derive(Debug, Clone, Copy, PartialEq, Eq, Structural)]
pub enum BotMode {
    /// Simulated trading, no real orders.
    Paper,
    /// Real-money trading.
    Live,
}

/// Order as handed to the execution boundary.  `id` stays empty until the
/// venue assigns one; `price` is in `(0, SCALE)` and `size` is positive.
#[derive(Debug, Clone)]
pub struct Order {
    /// Venue-assigned order id (empty until accepted).
    pub id: String,
    /// Outcome token the order trades.
    pub token_id: String,
    /// Buy or sell.
    pub side: TradeSide,
    /// Limit price in micro-units of USDC per share.
    pub price: u64,
    /// Size in micro-contracts.
    pub size: u64,
    /// Time-in-force.
    pub order_type: OrderType,
    /// Post-only flag; true for every maker order.
    pub post_only: bool,
    /// Creation time, Unix milliseconds.
    pub timestamp_ms: u64,
}

impl Order {
    /// A boundary order is well formed when its price is a probability
    /// strictly inside the unit interval and its size is positive.
    pub open spec fn well_formed(self) -> bool {
        &&& 0 < self.price < SCALE
        &&& self.size > 0
    }

    /// Create a pending maker order with maker-first defaults, stamped
    /// with the current wall clock.
    pub fn new_maker(token_id: String, side: TradeSide, price: u64, size: u64) -> (r: Order)
        requires
            0 < price < SCALE,
            size > 0,
        ensures
            r.well_formed(),
            r.id@ == Seq::<char>::empty(),
            r.token_id == token_id,
            r.side == side,
            r.price == price,
            r.size == size,
            r.order_type == OrderType::Gtc,
            r.post_only,
    {
        Order {
            id: String::new(),
            token_id,
            side,
            price,
            size,
            order_type: OrderType::Gtc,
            post_only: true,
            timestamp_ms: clock::now_unix_ms(),
        }
    }
}

/// Rich order record used for internal accounting.  The identifier is a
/// 128-bit UUID value; times are Unix milliseconds.
#[derive(Debug, Clone)]
pub struct RichOrder {
    /// Internal order id (UUID value).
    pub id: u128,
    /// Market condition this order belongs to.
    pub condition_id: String,
    /// Outcome token (YES or NO).
    pub token_id: String,
    /// Buy or sell.
    pub side: TradeSide,
    /// Price in micro-units of USDC.
    pub price: u64,
    /// Size in micro-contracts.
    pub size: u64,
    /// Time-in-force.
    pub order_type: OrderType,
    /// Current lifecycle status.
    pub status: OrderStatus,
    /// Venue-assigned order id, once submitted.
    pub clob_order_id: Option<String>,
    /// Creation time, Unix milliseconds.
    pub created_at_ms: u64,
    /// Last update time, Unix milliseconds.
    pub updated_at_ms: u64,
    /// Asset the market tracks.
    pub asset: Asset,
}

impl RichOrder {
    /// Creates a new pending order with maker-first defaults; the id and
    /// the creation stamp come from the process clock and id source.
    pub fn new_maker(
        condition_id: String,
        token_id: String,
        side: TradeSide,
        price: u64,
        size: u64,
        asset: Asset,
    ) -> (r: RichOrder)
        requires
            0 < price < SCALE,
            size > 0,
        ensures
            r.condition_id == condition_id,
            r.token_id == token_id,
            r.side == side,
            r.price == price,
            r.size == size,
            r.order_type == OrderType::Gtc,
            r.status == OrderStatus::Pending,
            r.clob_order_id is None,
            r.created_at_ms == r.updated_at_ms,
            r.asset == asset,
            (r.id >> 76) & 0xf == 4,
    {
        let now: u64 = clock::now_unix_ms();
        RichOrder {
            id: clock::new_order_uuid(),
            condition_id,
            token_id,
            side,
            price,
            size,
            order_type: OrderType::Gtc,
            status: OrderStatus::Pending,
            clob_order_id: None,
            created_at_ms: now,
            updated_at_ms: now,
            asset,
        }
    }

    /// Convert the rich record into the lightweight boundary form.  The
    /// boundary id is the venue id where one was assigned, else empty.
    pub fn to_boundary_order(&self) -> (r: Order)
        ensures
            r.token_id == self.token_id,
            r.side == self.side,
            r.price == self.price,
            r.size == self.size,
            r.order_type == self.order_type,
            r.post_only,
            r.timestamp_ms == self.created_at_ms,
            self.clob_order_id is Some ==> r.id == self.clob_order_id->0,
            self.clob_order_id is None ==> r.id@ == Seq::<char>::empty(),
    {
        let id: String = match &self.clob_order_id {
            Some(venue_id) => venue_id.clone(),
            None => String::new(),
        };
        Order {
            id,
            token_id: self.token_id.clone(),
            side: self.side,
            price: self.price,
            size: self.size,
            order_type: self.order_type,
            post_only: true,
            timestamp_ms: self.created_at_ms,
        }
    }
}

/// A completed trade for audit logging.  `pnl` may be negative.
#[derive(Debug, Clone)]
pub struct Trade {
    /// Internal trade id (UUID value).
    pub id: u128,
    /// Order that generated this trade.
    pub order_id: u128,
    /// Market condition id.
    pub condition_id: String,
    /// Asset traded.
    pub asset: Asset,
    /// Buy or sell.
    pub side: TradeSide,
    /// Execution price in micro-units.
    pub price: u64,
    /// Executed size in micro-contracts.
    pub size: u64,
    /// Fee paid in micro-units (zero for maker fills).
    pub fee: u64,
    /// Realized profit and loss in micro-units; negative for a loss.
    pub pnl: i64,
    /// Whether this was a maker fill.
    pub is_maker: bool,
    /// Execution time, Unix milliseconds.
    pub executed_at_ms: u64,
}

/// An open position in a market.
#[derive(Debug, Clone)]
pub struct Position {
    /// Market condition id.
    pub condition_id: String,
    /// Token held.
    pub token_id: String,
    /// Asset.
    pub asset: Asset,
    /// Contracts held in micro-units; the sign marks long or short.
    pub size: i64,
    /// Average entry price in micro-units.
    pub avg_entry_price: u64,
    /// Unrealized profit and loss in micro-units.
    pub unrealized_pnl: i64,
    /// When the position was opened, Unix milliseconds.
    pub opened_at_ms: u64,
    /// Whether the market has resolved.
    pub resolved: bool,
}

/// A prediction-market instance.
#[derive(Debug, Clone)]
pub struct Market {
    /// Unique condition id.
    pub condition_id: String,
    /// Token id of the YES outcome.
    pub token_id_yes: String,
    /// Token id of the NO outcome.
    pub token_id_no: String,
    /// Asset the market tracks.
    pub asset: Asset,
    /// Market question.
    pub question: String,
    /// Resolution time, Unix milliseconds.
    pub end_time_ms: u64,
    /// Whether the market is actively traded.
    pub active: bool,
}

/// A spot-price tick from an external feed.
#[derive(Debug, Clone)]
pub struct PriceTick {
    /// Asset the tick is for.
    pub asset: Asset,
    /// Spot price in micro-units of USD.
    pub price: u64,
    /// Tick time, Unix milliseconds.
    pub timestamp_ms: u64,
    /// Source feed name.
    pub source: String,
}

/// Top-of-book snapshot of a market's order book.
#[derive(Debug, Clone)]
pub struct OrderBookSnapshot {
    /// Market condition id.
    pub condition_id: String,
    /// Token id.
    pub token_id: String,
    /// Best bid price in micro-units, if any bid rests.
    pub best_bid: Option<u64>,
    /// Best ask price in micro-units, if any ask rests.
    pub best_ask: Option<u64>,
    /// Spread (ask minus bid) in micro-units, when both sides rest.
    pub spread: Option<u64>,
    /// Snapshot time, Unix milliseconds.
    pub timestamp_ms: u64,
}

impl OrderBookSnapshot {
    /// Mid price `(bid + ask) / 2`, defined only when both sides rest.
    pub fn mid_price(&self) -> (r: Option<u64>)
        requires
            self.best_bid is Some && self.best_ask is Some
                ==> self.best_bid->0 + self.best_ask->0 <= u64::MAX,
        ensures
            match r {
                Some(mid) => self.best_bid is Some && self.best_ask is Some
                    && mid == (self.best_bid->0 + self.best_ask->0) as int / 2,
                None => self.best_bid is None || self.best_ask is None,
            },
    {
        match (self.best_bid, self.best_ask) {
            (Some(bid), Some(ask)) => Some((bid + ask) / 2),
            _ => None,
        }
    }
}

} // verus!
