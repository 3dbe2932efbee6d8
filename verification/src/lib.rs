//! Technical-analysis features on price bars, and the weighing of their
//! signals across timeframes into one notification decision.
//!
//! The bars of a timeframe come as an ordered sequence, oldest first. From
//! them [`features`] derives one table per timeframe: moving averages, true
//! range, relative strength, the composite oscillators built on the bias of
//! a bar, and a climax signal per bar. [`aggregator`] reads the last
//! confirmed bar of each table, asks [`time_utils`] which timeframes are
//! closing, and weighs the signals by the length of their timeframes.
//!
//! All numbers are whole: prices and volumes are counted in a fixed-point
//! unit of the caller's choice, index values and percentages in millionths,
//! and quotients are rounded down. The one exception are the averages of
//! rises and falls behind the relative strength index: they are counted in
//! billionths of the unit and rounded up, so that an average above 0 never
//! becomes 0. Instants are whole seconds since 1970-01-01 00:00:00 UTC.

pub mod aggregator;
pub mod ext;
pub mod features;
pub mod model;
pub mod ta;
pub mod time_utils;
