//! Synthetic-transaction monitoring: the decisions that turn a watched
//! submission into timings, the retry discipline around fallible work, the
//! metric requests that report the timings, and the round-robin order in
//! which endpoints are probed.
pub mod config;
pub mod metric;
pub mod reducer;
pub mod retry;
pub mod schedule;
