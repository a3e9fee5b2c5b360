//! One module per group of endpoints.

pub mod config;
pub mod history;
pub mod search;
pub mod symbols;
pub mod timestamps;
