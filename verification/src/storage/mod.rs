//! The in-memory candle store and the registry of trading pairs.

pub mod candles;
pub mod period;
pub mod series;
pub mod trading_engine;
