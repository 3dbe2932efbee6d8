//! Indicators on fixed-point columns.

pub mod arith;
pub mod chain;
pub mod common;
pub mod experimental;
pub mod ma;
pub mod ohlc;
pub mod rsi;
pub mod volatility;
