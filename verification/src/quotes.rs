//! Quote-level views over the execution boundary: a two-sided quote
//! with its validity rule, the outcome of refreshing quotes for a
//! market pair, and a desired single-side order.

use vstd::prelude::*;

verus! {

/// A two-sided quote (bid and ask) for one token.
#[derive(Debug, Clone)]
pub struct Quote {
    /// Token being quoted.
    pub token_id: String,
    /// Our buy price, micro-units.
    pub bid_price: u64,
    /// Our sell price, micro-units.
    pub ask_price: u64,
    /// Bid size, micro-USDC.
    pub bid_size: u64,
    /// Ask size, micro-USDC.
    pub ask_size: u64,
    /// Spread in basis points.
    pub spread_bps: u64,
}

impl Quote {
    /// The mid price of the quote.
    pub fn mid_price(&self) -> (r: u64)
        requires
            self.bid_price + self.ask_price <= u64::MAX,
        ensures
            r == (self.bid_price + self.ask_price) as int / 2,
    {
        (self.bid_price + self.ask_price) / 2
    }

    /// A quote is valid when its spread is positive and both sides
    /// carry size.
    pub fn is_valid(&self) -> (r: bool)
        ensures
            r == (self.ask_price > self.bid_price && self.bid_size > 0 && self.ask_size > 0),
    {
        self.ask_price > self.bid_price && self.bid_size > 0 && self.ask_size > 0
    }
}

/// Result of refreshing the quotes of one market pair.
#[derive(Debug, Clone)]
pub struct QuoteUpdateResult {
    /// Orders cancelled during the refresh.
    pub cancelled: usize,
    /// New orders placed.
    pub placed: usize,
    /// Errors encountered.
    pub errors: Vec<String>,
    /// Time the refresh took, microseconds.
    pub latency_us: u64,
}

/// The desired resting order for a single side.
#[derive(Debug, Clone)]
pub struct DesiredOrder {
    /// Token to trade.
    pub token_id: String,
    /// Buy or sell.
    pub side: crate::trade::TradeSide,
    /// Target price, micro-units.
    pub price: u64,
    /// Target size, micro-USDC.
    pub size: u64,
}

} // verus!
