//! A concurrent load-generation and latency-measurement core.
//!
//! The crate holds the verified heart of an echo benchmark: a mergeable
//! latency histogram with percentile queries, per-worker result records and
//! their aggregation, the pacing state machine that emulates one-at-a-time
//! request/response rhythm over a bidirectional stream, and the decision
//! logic of the echo service itself. The asynchronous transport that drives
//! these pieces lives outside the library and hands it plain values.

pub mod config;
pub mod recorder;
pub mod report;
pub mod result;
pub mod server;
pub mod streaming;
pub mod worker;
