//! A verified backtesting engine for evaluating trading-signal policies
//! against a historical price series.
//!
//! All quantities (prices, currency amounts, rates, ratios) are fixed-point
//! integers scaled by [`fixed::SCALE`]; see [`fixed`] for the arithmetic
//! primitives and their contracts.

pub mod backtesting;
pub mod decimal;
pub mod fixed;
pub mod laws;
pub mod market;
pub mod processing;
