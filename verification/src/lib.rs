//! Verified core of a small back-testing engine: trade configurations, the
//! selection of the bars a trade may use, the exit decision (take profit,
//! stop loss or maximum holding period) and the resulting executions.
//!
//! Prices are floating-point numbers and are not handled here: a bar is
//! referred to by its timestamp and by its row in the caller's price table,
//! and the per-bar take-profit / stop-loss signals are handed in as booleans.

pub mod calendar;
pub mod cases;
pub mod data;
pub mod models;
