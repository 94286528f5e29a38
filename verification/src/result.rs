//! Per-worker benchmark results and their fold into one run-level result.
//!
//! Throughput is carried as an exact fixed-point count of thousandths of a
//! transaction per second, so that summing worker contributions is exact and
//! independent of the order workers finish in.

use vstd::prelude::*;
use vstd::seq_lib::{commutative_foldl, lemma_fold_left_permutation, lemma_multiset_commutative};
use vstd::multiset::Multiset;
use crate::recorder::{
    HistogramConfig, HistogramError, LatencyRecorder, lemma_percentile_permutation,
    percentile_spec,
};

verus! {

/// The abstraction of a benchmark result: exact scalars and the full
/// observation sequences of its two latency recorders.
pub ghost struct ResultView {
    pub tps_milli: int,
    pub txn_obs: Seq<u64>,
    pub cmd_obs: Seq<u64>,
    pub elapsed_nanos: int,
    pub committed_txns: int,
}

/// The zero-valued result: no throughput, no observations, no elapsed time,
/// nothing committed.
pub open spec fn zero_view() -> ResultView {
    ResultView {
        tps_milli: 0,
        txn_obs: Seq::empty(),
        cmd_obs: Seq::empty(),
        elapsed_nanos: 0,
        committed_txns: 0,
    }
}

/// Field-combination rules of the fold: throughput and committed counts sum,
/// elapsed time takes the maximum, histograms take all observations of both.
pub open spec fn combined(a: ResultView, b: ResultView) -> ResultView {
    ResultView {
        tps_milli: a.tps_milli + b.tps_milli,
        txn_obs: a.txn_obs + b.txn_obs,
        cmd_obs: a.cmd_obs + b.cmd_obs,
        elapsed_nanos: if a.elapsed_nanos >= b.elapsed_nanos {
            a.elapsed_nanos
        } else {
            b.elapsed_nanos
        },
        committed_txns: a.committed_txns + b.committed_txns,
    }
}

/// The fold of a sequence of worker results, in arrival order.
pub open spec fn aggregate_view(rs: Seq<ResultView>) -> ResultView
    decreases rs.len(),
{
    if rs.len() == 0 {
        zero_view()
    } else {
        combined(aggregate_view(rs.drop_last()), rs.last())
    }
}

/// What one worker produced, or the fold of several workers' results.
pub struct BenchmarkResult {
    /// Throughput in thousandths of a transaction per second.
    pub tps_milli: u64,
    /// Transaction-level latency observations.
    pub txn_latency: LatencyRecorder,
    /// Command-level latency observations.
    pub cmd_latency: LatencyRecorder,
    /// Wall-clock length of the run in nanoseconds.
    pub elapsed_nanos: u64,
    /// Transactions that ran to completion.
    pub committed_txns: u32,
}

impl View for BenchmarkResult {
    type V = ResultView;

    open spec fn view(&self) -> ResultView {
        ResultView {
            tps_milli: self.tps_milli as int,
            txn_obs: self.txn_latency@,
            cmd_obs: self.cmd_latency@,
            elapsed_nanos: self.elapsed_nanos as int,
            committed_txns: self.committed_txns as int,
        }
    }
}

impl BenchmarkResult {
    /// Both recorders are consistent and share one bucket layout.
    pub open spec fn wf(self) -> bool {
        &&& self.txn_latency.wf()
        &&& self.cmd_latency.wf()
        &&& self.cmd_latency.cfg() == self.txn_latency.cfg()
    }

    /// The bucket layout both recorders of this result were built from.
    pub open spec fn cfg(self) -> HistogramConfig {
        self.txn_latency.cfg()
    }

    /// Fold another worker's result into this one.
    ///
    /// Succeeds exactly when the two results' recorders share this result's
    /// bucket layout; on refusal nothing is changed.
    pub fn merge(&mut self, other: BenchmarkResult) -> (r: Result<(), HistogramError>)
        requires
            old(self).wf(),
            other.wf(),
            old(self).tps_milli + other.tps_milli <= u64::MAX,
            old(self).committed_txns + other.committed_txns <= u32::MAX,
            old(self).txn_latency@.len() + other.txn_latency@.len() <= u64::MAX,
            old(self).cmd_latency@.len() + other.cmd_latency@.len() <= u64::MAX,
        ensures
            final(self).wf(),
            final(self).cfg() == old(self).cfg(),
            other.cfg() == old(self).cfg() ==> r == Ok::<(), HistogramError>(()) && final(self)@
                == combined(old(self)@, other@),
            other.cfg() != old(self).cfg() ==> r == Err::<(), HistogramError>(
                HistogramError::IncompatibleConfig,
            ) && final(self)@ == old(self)@,
    {
        if self.txn_latency.config() != other.txn_latency.config() {
            return Err(HistogramError::IncompatibleConfig);
        }
        match self.txn_latency.merge(other.txn_latency) {
            Ok(()) => {}
            Err(e) => {
                return Err(e);
            }
        }
        match self.cmd_latency.merge(other.cmd_latency) {
            Ok(()) => {}
            Err(e) => {
                return Err(e);
            }
        }
        self.tps_milli = self.tps_milli + other.tps_milli;
        if other.elapsed_nanos > self.elapsed_nanos {
            self.elapsed_nanos = other.elapsed_nanos;
        }
        self.committed_txns = self.committed_txns + other.committed_txns;
        Ok(())
    }
}

impl Default for BenchmarkResult {
    /// The zero-valued result over the default bucket layout.
    fn default() -> (r: Self)
        ensures
            r.wf(),
            r@ == zero_view(),
            r.cfg() == (HistogramConfig { max_value_power: 64 }),
    {
        let config = HistogramConfig::default();
        BenchmarkResult {
            tps_milli: 0,
            txn_latency: LatencyRecorder::new(config),
            cmd_latency: LatencyRecorder::new(config),
            elapsed_nanos: 0,
            committed_txns: 0,
        }
    }
}

/// Folds worker results, arriving in any completion order, into one
/// run-level result; each worker's result must be delivered exactly once.
pub struct ResultAggregator {
    acc: BenchmarkResult,
    added: Ghost<Seq<ResultView>>,
}

impl ResultAggregator {
    /// The results folded so far, in arrival order.
    pub closed spec fn added(self) -> Seq<ResultView> {
        self.added@
    }

    /// The current fold value.
    pub closed spec fn current(self) -> ResultView {
        self.acc@
    }

    /// The bucket layout the aggregate accepts.
    pub closed spec fn cfg(self) -> HistogramConfig {
        self.acc.cfg()
    }

    pub closed spec fn wf(self) -> bool {
        &&& self.acc.wf()
        &&& self.acc@ == aggregate_view(self.added@)
    }

    /// An empty aggregate over the default bucket layout: zero throughput,
    /// zero committed transactions, zero elapsed time, empty histograms.
    pub fn new() -> (r: Self)
        ensures
            r.wf(),
            r.added() == Seq::<ResultView>::empty(),
            r.current() == zero_view(),
            r.cfg() == (HistogramConfig { max_value_power: 64 }),
    {
        let acc = BenchmarkResult::default();
        ResultAggregator { acc, added: Ghost(Seq::empty()) }
    }

    /// Whether another result still fits into the running sums.
    pub fn can_absorb(&self, r: &BenchmarkResult) -> (b: bool)
        requires
            self.wf(),
            r.wf(),
        ensures
            b == ({
                &&& self.current().tps_milli + r@.tps_milli <= u64::MAX
                &&& self.current().committed_txns + r@.committed_txns <= u32::MAX
                &&& self.current().txn_obs.len() + r@.txn_obs.len() <= u64::MAX
                &&& self.current().cmd_obs.len() + r@.cmd_obs.len() <= u64::MAX
            }),
    {
        self.acc.tps_milli <= u64::MAX - r.tps_milli && self.acc.committed_txns <= u32::MAX
            - r.committed_txns && self.acc.txn_latency.observation_count() <= u64::MAX
            - r.txn_latency.observation_count() && self.acc.cmd_latency.observation_count()
            <= u64::MAX - r.cmd_latency.observation_count()
    }

    /// Fold in one worker's result.
    pub fn add(&mut self, r: BenchmarkResult) -> (res: Result<(), HistogramError>)
        requires
            old(self).wf(),
            r.wf(),
            old(self).current().tps_milli + r@.tps_milli <= u64::MAX,
            old(self).current().committed_txns + r@.committed_txns <= u32::MAX,
            old(self).current().txn_obs.len() + r@.txn_obs.len() <= u64::MAX,
            old(self).current().cmd_obs.len() + r@.cmd_obs.len() <= u64::MAX,
        ensures
            final(self).wf(),
            final(self).cfg() == old(self).cfg(),
            r.cfg() == old(self).cfg() ==> res == Ok::<(), HistogramError>(())
                && final(self).added() == old(self).added().push(r@)
                && final(self).current() == combined(old(self).current(), r@),
            r.cfg() != old(self).cfg() ==> res == Err::<(), HistogramError>(
                HistogramError::IncompatibleConfig,
            ) && final(self).added() == old(self).added()
                && final(self).current() == old(self).current(),
    {
        let ghost rv = r@;
        match self.acc.merge(r) {
            Ok(()) => {
                proof {
                    self.added@ = self.added@.push(rv);
                    assert(self.added@.drop_last() =~= old(self).added@);
                }
                Ok(())
            }
            Err(e) => Err(e),
        }
    }

    /// Hand out the folded run-level result.
    pub fn into_result(self) -> (r: BenchmarkResult)
        requires
            self.wf(),
        ensures
            r.wf(),
            r@ == self.current(),
            r.cfg() == self.cfg(),
    {
        self.acc
    }
}

/// A run with no failed worker reports exactly the configured count: when
/// every result in the fold commits `txns_per_worker` transactions, the
/// aggregate commits `worker count * txns_per_worker`. Anything short of
/// that signals a partial run.
pub proof fn lemma_full_run_commits_expected(rs: Seq<ResultView>, txns_per_worker: int)
    requires
        forall|k: int| 0 <= k < rs.len() ==> rs[k].committed_txns == txns_per_worker,
    ensures
        aggregate_view(rs).committed_txns == rs.len() * txns_per_worker,
    decreases rs.len(),
{
    if rs.len() > 0 {
        assert(forall|k: int|
            0 <= k < rs.drop_last().len() ==> rs.drop_last()[k] == rs[k]);
        lemma_full_run_commits_expected(rs.drop_last(), txns_per_worker);
        assert((rs.len() - 1) * txns_per_worker + txns_per_worker == rs.len() * txns_per_worker)
            by (nonlinear_arith);
    }
}

/// The scalar fields of the fold expressed as commutative folds.
proof fn lemma_aggregate_as_folds(rs: Seq<ResultView>)
    ensures
        aggregate_view(rs).tps_milli == rs.fold_left(0int, |acc: int, r: ResultView| acc
            + r.tps_milli),
        aggregate_view(rs).committed_txns == rs.fold_left(0int, |acc: int, r: ResultView| acc
            + r.committed_txns),
        aggregate_view(rs).elapsed_nanos == rs.fold_left(0int, |acc: int, r: ResultView| (
        if acc >= r.elapsed_nanos {
            acc
        } else {
            r.elapsed_nanos
        })),
        aggregate_view(rs).txn_obs.to_multiset() == rs.fold_left(
            Multiset::<u64>::empty(),
            |acc: Multiset<u64>, r: ResultView| acc.add(r.txn_obs.to_multiset()),
        ),
        aggregate_view(rs).cmd_obs.to_multiset() == rs.fold_left(
            Multiset::<u64>::empty(),
            |acc: Multiset<u64>, r: ResultView| acc.add(r.cmd_obs.to_multiset()),
        ),
    decreases rs.len(),
{
    broadcast use vstd::seq_lib::group_to_multiset_ensures;
    broadcast use vstd::multiset::lemma_multiset_empty_len;

    if rs.len() == 0 {
        assert(aggregate_view(rs).txn_obs.to_multiset().len() == 0);
        assert(aggregate_view(rs).cmd_obs.to_multiset().len() == 0);
    } else {
        lemma_aggregate_as_folds(rs.drop_last());
        lemma_multiset_commutative(aggregate_view(rs.drop_last()).txn_obs, rs.last().txn_obs);
        lemma_multiset_commutative(aggregate_view(rs.drop_last()).cmd_obs, rs.last().cmd_obs);
    }
}

/// Folding worker results in any arrival order yields the same summed
/// throughput, the same committed-transaction count, the same elapsed time,
/// and identical percentile reports from the merged histograms.
pub proof fn lemma_aggregate_order_independent(
    cfg: HistogramConfig,
    rs1: Seq<ResultView>,
    rs2: Seq<ResultView>,
    p: int,
)
    requires
        rs1.to_multiset() == rs2.to_multiset(),
    ensures
        aggregate_view(rs1).tps_milli == aggregate_view(rs2).tps_milli,
        aggregate_view(rs1).committed_txns == aggregate_view(rs2).committed_txns,
        aggregate_view(rs1).elapsed_nanos == aggregate_view(rs2).elapsed_nanos,
        percentile_spec(cfg, aggregate_view(rs1).txn_obs, p) == percentile_spec(
            cfg,
            aggregate_view(rs2).txn_obs,
            p,
        ),
        percentile_spec(cfg, aggregate_view(rs1).cmd_obs, p) == percentile_spec(
            cfg,
            aggregate_view(rs2).cmd_obs,
            p,
        ),
{
    lemma_aggregate_as_folds(rs1);
    lemma_aggregate_as_folds(rs2);
    let f_tps = |acc: int, r: ResultView| acc + r.tps_milli;
    let f_committed = |acc: int, r: ResultView| acc + r.committed_txns;
    let f_elapsed = |acc: int, r: ResultView| (if acc >= r.elapsed_nanos {
        acc
    } else {
        r.elapsed_nanos
    });
    let f_txn = |acc: Multiset<u64>, r: ResultView| acc.add(r.txn_obs.to_multiset());
    let f_cmd = |acc: Multiset<u64>, r: ResultView| acc.add(r.cmd_obs.to_multiset());
    lemma_fold_left_permutation(rs1, rs2, f_tps, 0int);
    lemma_fold_left_permutation(rs1, rs2, f_committed, 0int);
    lemma_fold_left_permutation(rs1, rs2, f_elapsed, 0int);
    assert(commutative_foldl(f_txn)) by {
        assert forall|x: ResultView, y: ResultView, v: Multiset<u64>|
            #[trigger] f_txn(f_txn(v, x), y) == f_txn(f_txn(v, y), x) by {
            assert(v.add(x.txn_obs.to_multiset()).add(y.txn_obs.to_multiset()) =~= v.add(
                y.txn_obs.to_multiset(),
            ).add(x.txn_obs.to_multiset()));
        }
    }
    assert(commutative_foldl(f_cmd)) by {
        assert forall|x: ResultView, y: ResultView, v: Multiset<u64>|
            #[trigger] f_cmd(f_cmd(v, x), y) == f_cmd(f_cmd(v, y), x) by {
            assert(v.add(x.cmd_obs.to_multiset()).add(y.cmd_obs.to_multiset()) =~= v.add(
                y.cmd_obs.to_multiset(),
            ).add(x.cmd_obs.to_multiset()));
        }
    }
    lemma_fold_left_permutation(rs1, rs2, f_txn, Multiset::<u64>::empty());
    lemma_fold_left_permutation(rs1, rs2, f_cmd, Multiset::<u64>::empty());
    lemma_percentile_permutation(cfg, aggregate_view(rs1).txn_obs, aggregate_view(rs2).txn_obs, p);
    lemma_percentile_permutation(cfg, aggregate_view(rs1).cmd_obs, aggregate_view(rs2).cmd_obs, p);
}

} // verus!
