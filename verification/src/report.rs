//! The run-level report: five percentile points for each latency class,
//! in milliseconds, beside the three summary fields.
//!
//! Every figure is an exact integer in a fixed-point unit — microseconds
//! stand for milliseconds with three decimals, milliseconds stand for
//! seconds with three decimals — so the rendering shell only formats, never
//! computes. Building a report reads the aggregate and changes nothing.

use vstd::prelude::*;
use crate::recorder::{
    HistogramConfig, LatencyRecorder, lemma_percentile_spec_bounds, lemma_wf_valid,
    percentile_spec,
};
use crate::result::BenchmarkResult;

verus! {

/// The duration reported at percentile `p`, in microseconds (milliseconds
/// with three decimals); zero when nothing was recorded.
pub open spec fn percentile_micros_spec(cfg: HistogramConfig, obs: Seq<u64>, p: int) -> int {
    if obs.len() == 0 {
        0
    } else {
        percentile_spec(cfg, obs, p) / 1000
    }
}

/// One latency percentile of a recorder, in microseconds.
pub fn percentile_ms(recorder: &LatencyRecorder, p: u64) -> (r: u64)
    requires
        recorder.wf(),
        p <= 100,
    ensures
        r == percentile_micros_spec(recorder.cfg(), recorder@, p as int),
{
    proof {
        lemma_wf_valid(*recorder);
        lemma_percentile_spec_bounds(recorder.cfg(), recorder@, p as int);
    }
    match recorder.percentile(p) {
        Some(nanos) => nanos / 1000,
        None => 0,
    }
}

/// The machine-readable record of one benchmark run: the three summary
/// fields and ten latency figures, five percentile points for each of the
/// two latency classes.
pub struct Report {
    /// Wall-clock run length in milliseconds (seconds with three decimals).
    pub elapsed_millis: u64,
    /// Transactions that ran to completion across all workers.
    pub committed: u32,
    /// Aggregate throughput in thousandths of a transaction per second.
    pub tps_milli: u64,
    /// Transaction latency, minimum (0th percentile), in microseconds.
    pub txn_lat_min_micros: u64,
    /// Transaction latency, 50th percentile, in microseconds.
    pub txn_lat_p50_micros: u64,
    /// Transaction latency, 90th percentile, in microseconds.
    pub txn_lat_p90_micros: u64,
    /// Transaction latency, 99th percentile, in microseconds.
    pub txn_lat_p99_micros: u64,
    /// Transaction latency, maximum (100th percentile), in microseconds.
    pub txn_lat_max_micros: u64,
    /// Command latency, minimum (0th percentile), in microseconds.
    pub cmd_lat_min_micros: u64,
    /// Command latency, 50th percentile, in microseconds.
    pub cmd_lat_p50_micros: u64,
    /// Command latency, 90th percentile, in microseconds.
    pub cmd_lat_p90_micros: u64,
    /// Command latency, 99th percentile, in microseconds.
    pub cmd_lat_p99_micros: u64,
    /// Command latency, maximum (100th percentile), in microseconds.
    pub cmd_lat_max_micros: u64,
}

impl BenchmarkResult {
    /// Compute the report of this result without changing it.
    pub fn show(&self) -> (r: Report)
        requires
            self.wf(),
        ensures
            r.elapsed_millis == self@.elapsed_nanos / 1_000_000,
            r.committed == self@.committed_txns,
            r.tps_milli == self@.tps_milli,
            r.txn_lat_min_micros == percentile_micros_spec(self.cfg(), self@.txn_obs, 0),
            r.txn_lat_p50_micros == percentile_micros_spec(self.cfg(), self@.txn_obs, 50),
            r.txn_lat_p90_micros == percentile_micros_spec(self.cfg(), self@.txn_obs, 90),
            r.txn_lat_p99_micros == percentile_micros_spec(self.cfg(), self@.txn_obs, 99),
            r.txn_lat_max_micros == percentile_micros_spec(self.cfg(), self@.txn_obs, 100),
            r.cmd_lat_min_micros == percentile_micros_spec(self.cfg(), self@.cmd_obs, 0),
            r.cmd_lat_p50_micros == percentile_micros_spec(self.cfg(), self@.cmd_obs, 50),
            r.cmd_lat_p90_micros == percentile_micros_spec(self.cfg(), self@.cmd_obs, 90),
            r.cmd_lat_p99_micros == percentile_micros_spec(self.cfg(), self@.cmd_obs, 99),
            r.cmd_lat_max_micros == percentile_micros_spec(self.cfg(), self@.cmd_obs, 100),
    {
        Report {
            elapsed_millis: self.elapsed_nanos / 1_000_000,
            committed: self.committed_txns,
            tps_milli: self.tps_milli,
            txn_lat_min_micros: percentile_ms(&self.txn_latency, 0),
            txn_lat_p50_micros: percentile_ms(&self.txn_latency, 50),
            txn_lat_p90_micros: percentile_ms(&self.txn_latency, 90),
            txn_lat_p99_micros: percentile_ms(&self.txn_latency, 99),
            txn_lat_max_micros: percentile_ms(&self.txn_latency, 100),
            cmd_lat_min_micros: percentile_ms(&self.cmd_latency, 0),
            cmd_lat_p50_micros: percentile_ms(&self.cmd_latency, 50),
            cmd_lat_p90_micros: percentile_ms(&self.cmd_latency, 90),
            cmd_lat_p99_micros: percentile_ms(&self.cmd_latency, 99),
            cmd_lat_max_micros: percentile_ms(&self.cmd_latency, 100),
        }
    }
}

} // verus!
