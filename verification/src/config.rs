//! Run-wide benchmark configuration.

use vstd::prelude::*;

verus! {

/// How a worker drives the commands of one transaction.
#[derive(Clone, Copy, PartialEq, Eq, Structural, Debug)]
pub enum Mode {
    /// One blocking request/response call per command.
    Unary,
    /// All commands of a transaction over one paced bidirectional stream.
    Streaming,
}

/// How the final report is rendered.
#[derive(Clone, Copy, PartialEq, Eq, Structural, Debug)]
pub enum OutputFormat {
    /// A machine-readable record of numeric fields.
    Structured,
    /// Labeled human-readable lines.
    Human,
}

/// Immutable settings for one benchmark run, read by every worker.
#[derive(Clone, Copy, PartialEq, Eq, Structural, Debug)]
pub struct BenchmarkConfig {
    /// Number of concurrent simulated clients; must be positive.
    pub worker_count: u32,
    /// Transactions each worker runs sequentially.
    pub txns_per_worker: u32,
    /// Commands issued within each transaction.
    pub commands_per_txn: u32,
    /// Command-execution strategy.
    pub mode: Mode,
    /// Report rendering choice.
    pub output: OutputFormat,
}

impl BenchmarkConfig {
    /// A configuration is usable when at least one worker is asked for.
    pub open spec fn valid(self) -> bool {
        self.worker_count >= 1
    }

    /// Total transactions a fully successful run commits.
    pub open spec fn expected_committed(self) -> int {
        self.worker_count * self.txns_per_worker
    }

    /// Whether commands travel over the paced bidirectional stream.
    pub fn uses_streaming(&self) -> (b: bool)
        ensures
            b == (self.mode is Streaming),
    {
        match self.mode {
            Mode::Streaming => true,
            Mode::Unary => false,
        }
    }

    /// The committed-transaction count a run with no failed worker reports;
    /// anything short of it signals partial failure.
    pub fn expected_committed_count(&self) -> (n: u64)
        ensures
            n == self.expected_committed(),
    {
        proof {
            assert((self.worker_count as int) * (self.txns_per_worker as int) <= u64::MAX)
                by (nonlinear_arith)
                requires
                    self.worker_count <= u32::MAX,
                    self.txns_per_worker <= u32::MAX,
            ;
        }
        (self.worker_count as u64) * (self.txns_per_worker as u64)
    }
}

} // verus!
