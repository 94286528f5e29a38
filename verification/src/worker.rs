//! One simulated client: its command payloads, its sequential command and
//! transaction bookkeeping, and the result it hands to the aggregator.
//!
//! The asynchronous shell owns the connection and the clock; it asks this
//! module what to send, measures elapsed time, and hands the measurements
//! back. Everything the worker decides or computes is here.

use vstd::prelude::*;
use crate::recorder::{HistogramConfig, LatencyRecorder};
use crate::result::{BenchmarkResult, ResultView};

verus! {

/// Decimal digits of `n`, most significant first, as ASCII bytes.
pub open spec fn dec_digits(n: nat) -> Seq<u8>
    decreases n,
{
    if n < 10 {
        seq![(48 + n) as u8]
    } else {
        dec_digits(n / 10).push((48 + n % 10) as u8)
    }
}

/// The deterministic payload of the command at index `i` within its
/// transaction: `msg ` followed by the index, padded to at least two digits.
pub open spec fn payload_spec(i: nat) -> Seq<u8> {
    seq![109u8, 115u8, 103u8, 32u8] + (if i < 10 {
        seq![48u8] + dec_digits(i)
    } else {
        dec_digits(i)
    })
}

fn dec_digits_exec(n: u64) -> (v: Vec<u8>)
    ensures
        v@ == dec_digits(n as nat),
    decreases n,
{
    if n < 10 {
        let mut v: Vec<u8> = Vec::new();
        v.push(48 + (n as u8));
        proof {
            assert(v@ =~= dec_digits(n as nat));
        }
        v
    } else {
        let mut v = dec_digits_exec(n / 10);
        v.push(48 + ((n % 10) as u8));
        v
    }
}

/// Build the wire payload of command `i`.
pub fn command_payload(i: u64) -> (s: Vec<u8>)
    ensures
        s@ == payload_spec(i as nat),
{
    let mut s: Vec<u8> = Vec::new();
    s.push(109);
    s.push(115);
    s.push(103);
    s.push(32);
    if i < 10 {
        s.push(48);
    }
    let mut d = dec_digits_exec(i);
    s.append(&mut d);
    proof {
        assert(s@ =~= payload_spec(i as nat));
    }
    s
}

/// Exact fixed-point throughput: thousandths of a transaction per second
/// over an elapsed time in nanoseconds.
pub open spec fn throughput_milli_tps(committed: nat, elapsed_nanos: nat) -> int
    recommends
        elapsed_nanos > 0,
{
    (committed as int) * 1_000_000_000_000 / (elapsed_nanos as int)
}

/// Issues the commands of one transaction strictly one at a time, recording
/// each command's round-trip latency.
pub struct UnaryRunner {
    total: u64,
    issued: u64,
    in_flight: bool,
}

impl UnaryRunner {
    /// Commands this runner will issue in total.
    pub closed spec fn total(self) -> u64 {
        self.total
    }

    /// Commands dispatched so far.
    pub closed spec fn issued(self) -> u64 {
        self.issued
    }

    /// Whether a dispatched command still awaits its response.
    pub closed spec fn in_flight(self) -> bool {
        self.in_flight
    }

    pub closed spec fn wf(self) -> bool {
        &&& self.issued <= self.total
        &&& self.in_flight ==> self.issued >= 1
    }

    /// A runner for one transaction of `total` commands.
    pub fn new(total: u64) -> (r: Self)
        ensures
            r.wf(),
            r.total() == total,
            r.issued() == 0,
            !r.in_flight(),
    {
        UnaryRunner { total, issued: 0, in_flight: false }
    }

    /// The next command's payload, or `None` once all commands were issued.
    /// Commands never pipeline: the previous one must have completed.
    pub fn next_command(&mut self) -> (r: Option<Vec<u8>>)
        requires
            old(self).wf(),
            !old(self).in_flight(),
        ensures
            final(self).wf(),
            final(self).total() == old(self).total(),
            old(self).issued() == old(self).total() ==> r is None && *final(self) == *old(self),
            old(self).issued() < old(self).total() ==> ({
                &&& r matches Some(payload) && payload@ == payload_spec(old(self).issued() as nat)
                &&& final(self).issued() == old(self).issued() + 1
                &&& final(self).in_flight()
            }),
    {
        if self.issued == self.total {
            None
        } else {
            let payload = command_payload(self.issued);
            self.issued = self.issued + 1;
            self.in_flight = true;
            Some(payload)
        }
    }

    /// The in-flight command's response arrived; the next command may go
    /// out.
    pub fn complete_command(&mut self)
        requires
            old(self).wf(),
            old(self).in_flight(),
        ensures
            final(self).wf(),
            !final(self).in_flight(),
            final(self).total() == old(self).total(),
            final(self).issued() == old(self).issued(),
    {
        self.in_flight = false;
    }
}

/// The sequential transaction loop of one simulated client.
pub struct Worker {
    txns_per_worker: u32,
    commands_per_txn: u32,
    txn_latency: LatencyRecorder,
    cmd_latency: LatencyRecorder,
    completed: u32,
}

impl Worker {
    /// Transactions this worker is asked to run.
    pub closed spec fn txns_per_worker(self) -> u32 {
        self.txns_per_worker
    }

    /// Commands within each transaction.
    pub closed spec fn commands_per_txn(self) -> u32 {
        self.commands_per_txn
    }

    /// Transactions completed so far.
    pub closed spec fn completed(self) -> u32 {
        self.completed
    }

    /// Transaction-level observations so far.
    pub closed spec fn txn_obs(self) -> Seq<u64> {
        self.txn_latency@
    }

    /// Command-level observations so far.
    pub closed spec fn cmd_obs(self) -> Seq<u64> {
        self.cmd_latency@
    }

    /// The bucket layout of both of this worker's recorders.
    pub closed spec fn cfg(self) -> HistogramConfig {
        self.txn_latency.cfg()
    }

    pub closed spec fn wf(self) -> bool {
        &&& self.txn_latency.wf()
        &&& self.cmd_latency.wf()
        &&& self.cmd_latency.cfg() == self.txn_latency.cfg()
        &&& self.completed <= self.txns_per_worker
        &&& self.txn_latency@.len() == self.completed
    }

    /// A fresh worker: nothing run, nothing recorded.
    pub fn new(config: HistogramConfig, txns_per_worker: u32, commands_per_txn: u32) -> (r: Self)
        requires
            config.valid(),
        ensures
            r.wf(),
            r.cfg() == config,
            r.txns_per_worker() == txns_per_worker,
            r.commands_per_txn() == commands_per_txn,
            r.completed() == 0,
            r.txn_obs() == Seq::<u64>::empty(),
            r.cmd_obs() == Seq::<u64>::empty(),
    {
        Worker {
            txns_per_worker,
            commands_per_txn,
            txn_latency: LatencyRecorder::new(config),
            cmd_latency: LatencyRecorder::new(config),
            completed: 0,
        }
    }

    /// How many transactions have completed.
    pub fn completed_count(&self) -> (n: u32)
        ensures
            n == self.completed(),
    {
        self.completed
    }

    /// Whether one more command observation still fits.
    pub fn can_record_command(&self) -> (b: bool)
        requires
            self.wf(),
        ensures
            b == (self.cmd_obs().len() < u64::MAX),
    {
        self.cmd_latency.observation_count() < u64::MAX
    }

    /// Whether this worker's throughput over the given wall-clock time fits
    /// the fixed-point result type.
    pub fn throughput_fits(&self, elapsed_nanos: u64) -> (b: bool)
        requires
            elapsed_nanos >= 1,
        ensures
            b == (throughput_milli_tps(self.completed() as nat, elapsed_nanos as nat)
                <= u64::MAX),
    {
        ((self.completed as u128) * 1_000_000_000_000) / (elapsed_nanos as u128) <= (u64::MAX
            as u128)
    }

    /// A unary runner for the next transaction's commands.
    pub fn begin_transaction(&self) -> (r: UnaryRunner)
        ensures
            r.wf(),
            r.total() == self.commands_per_txn(),
            r.issued() == 0,
            !r.in_flight(),
    {
        UnaryRunner::new(self.commands_per_txn as u64)
    }

    /// Record one command's measured round-trip latency.
    pub fn record_command(&mut self, latency_nanos: u64)
        requires
            old(self).wf(),
            old(self).cmd_obs().len() < u64::MAX,
        ensures
            final(self).wf(),
            final(self).cfg() == old(self).cfg(),
            final(self).txns_per_worker() == old(self).txns_per_worker(),
            final(self).commands_per_txn() == old(self).commands_per_txn(),
            final(self).completed() == old(self).completed(),
            final(self).txn_obs() == old(self).txn_obs(),
            final(self).cmd_obs() == old(self).cmd_obs().push(latency_nanos),
    {
        self.cmd_latency.record(latency_nanos);
    }

    /// Record one finished transaction and its elapsed time.
    pub fn complete_transaction(&mut self, elapsed_nanos: u64)
        requires
            old(self).wf(),
            old(self).completed() < old(self).txns_per_worker(),
        ensures
            final(self).wf(),
            final(self).cfg() == old(self).cfg(),
            final(self).txns_per_worker() == old(self).txns_per_worker(),
            final(self).commands_per_txn() == old(self).commands_per_txn(),
            final(self).completed() == old(self).completed() + 1,
            final(self).txn_obs() == old(self).txn_obs().push(elapsed_nanos),
            final(self).cmd_obs() == old(self).cmd_obs(),
    {
        self.txn_latency.record(elapsed_nanos);
        self.completed = self.completed + 1;
    }

    /// Close the run: compute the worker's throughput over its wall-clock
    /// time and hand everything over as one `BenchmarkResult`.
    pub fn finish(self, elapsed_nanos: u64) -> (r: BenchmarkResult)
        requires
            self.wf(),
            elapsed_nanos >= 1,
            throughput_milli_tps(self.completed() as nat, elapsed_nanos as nat) <= u64::MAX,
        ensures
            r.wf(),
            r.cfg() == self.cfg(),
            r@ == (ResultView {
                tps_milli: throughput_milli_tps(self.completed() as nat, elapsed_nanos as nat),
                txn_obs: self.txn_obs(),
                cmd_obs: self.cmd_obs(),
                elapsed_nanos: elapsed_nanos as int,
                committed_txns: self.completed() as int,
            }),
    {
        let wide: u128 = ((self.completed as u128) * 1_000_000_000_000) / (elapsed_nanos as u128);
        BenchmarkResult {
            tps_milli: wide as u64,
            txn_latency: self.txn_latency,
            cmd_latency: self.cmd_latency,
            elapsed_nanos,
            committed_txns: self.completed,
        }
    }
}

} // verus!
