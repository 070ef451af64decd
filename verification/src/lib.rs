//! Decisions of an event log indexer for EVM chains: which block range to request next, how to
//! recover from a provider error, when a live block is safe to index, and in which order
//! dependent events are processed.

pub mod config;
pub mod fetch_logs;
pub mod laws;
pub mod live;
pub mod process;
pub mod results;
pub mod retry;
pub mod text;
