//! Verified core of an LMSR market-making engine for binary prediction
//! markets: pricing, fees, Kelly sizing, Bayesian fusion, risk limits,
//! order management, feed debouncing and persistence codecs.
//!
//! All prices, probabilities and sizes are fixed-point values carried in
//! micro-units: one unit is `1 / 1_000_000` of the quantity it measures.

use vstd::prelude::*;

pub mod assoc;
pub mod auth;
pub mod bayesian;
pub mod clob;
pub mod codec;
pub mod clock;
pub mod engine;
pub mod config;
pub mod feed;
pub mod fees;
pub mod kelly;
pub mod health;
pub mod lmsr;
pub mod numfmt;
pub mod paper;
pub mod persistence;
pub mod order_manager;
pub mod ports;
pub mod quotes;
pub mod risk;
pub mod settlement;
pub mod sigmoid;
pub mod fixed;
pub mod trade;
pub mod wallet;

verus! {

} // verus!
