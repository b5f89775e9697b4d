//! The engine's data model: one raw observation per tick, and the same
//! observation enriched with rolling indicators.
//!
//! Prices and volumes are fixed-point integers (see [`crate::fixed`]);
//! timestamps are an integer count of an epoch-based unit (for instance
//! seconds), supplied by the caller and never produced by the engine.

use vstd::prelude::*;
use crate::fixed::MAX_PRICE;

verus! {

/// A single timestamped price/volume observation for one instrument.
#[derive(Debug, Clone, PartialEq)]
pub struct MarketData {
    pub timestamp: i64,
    pub symbol: String,
    pub price: i64,
    pub volume: i64,
    pub high: i64,
    pub low: i64,
}

impl MarketData {
    /// An observation the engine accepts: a strictly positive price within
    /// the fixed-point range.
    pub open spec fn valid(&self) -> bool {
        1 <= self.price <= MAX_PRICE
    }
}

/// A [`MarketData`] observation together with the rolling indicators derived
/// from the price history up to and including it.
///
/// Each indicator is `None` until enough history has accumulated.
#[derive(Debug, Clone, PartialEq)]
pub struct ProcessedMarketData {
    pub raw_data: MarketData,
    pub moving_average_5: Option<i64>,
    pub moving_average_20: Option<i64>,
    pub rsi_14: Option<i64>,
    pub volatility: Option<i64>,
    pub is_outlier: bool,
}

impl ProcessedMarketData {
    /// The engine only reads the embedded raw observation's price range.
    pub open spec fn valid(&self) -> bool {
        self.raw_data.valid()
    }
}

} // verus!
