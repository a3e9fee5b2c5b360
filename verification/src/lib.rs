//! OHLCV candle aggregation for an on-chain order-book market.
//!
//! Trades are folded into per-interval candle series that stay aligned,
//! gap-free and bounded in length; the series are read back through
//! range and last-N queries shaped for charting front-ends.

pub mod calendar;
pub mod indexer;
pub mod storage;
pub mod web;
