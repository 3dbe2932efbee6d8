//! What the library hands to the services around it.

pub mod ntfy;
pub mod yfinance;
