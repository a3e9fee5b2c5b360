//! The read-only query surface, shaped for UDF charting front-ends. What
//! stands here computes the replies; serving them is left to the caller.

pub mod routes;
pub mod server;
