//! From upstream order events to folded candles.

pub mod chain;
pub mod ingestor;
pub mod order_event_handler;
