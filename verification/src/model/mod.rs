//! The data the library works on.

pub mod kline;
pub mod timeframe;

pub use kline::Kline;
pub use timeframe::Timeframe;
