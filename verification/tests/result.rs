use echo_bench::recorder::{HistogramConfig, HistogramError, LatencyRecorder};
use echo_bench::result::{BenchmarkResult, ResultAggregator};

fn result_with(
    tps_milli: u64,
    txn_obs: &[u64],
    cmd_obs: &[u64],
    elapsed_nanos: u64,
    committed_txns: u32,
) -> BenchmarkResult {
    let config = HistogramConfig { max_value_power: 64 };
    let mut txn_latency = LatencyRecorder::new(config);
    for &d in txn_obs {
        txn_latency.record(d);
    }
    let mut cmd_latency = LatencyRecorder::new(config);
    for &d in cmd_obs {
        cmd_latency.record(d);
    }
    BenchmarkResult { tps_milli, txn_latency, cmd_latency, elapsed_nanos, committed_txns }
}

#[test]
fn default_result_is_zero_valued() {
    let r = BenchmarkResult::default();
    assert_eq!(r.tps_milli, 0);
    assert_eq!(r.elapsed_nanos, 0);
    assert_eq!(r.committed_txns, 0);
    assert_eq!(r.txn_latency.observation_count(), 0);
    assert_eq!(r.cmd_latency.observation_count(), 0);
}

#[test]
fn merge_combines_fields() {
    let mut a = result_with(1500, &[1000, 2000], &[10, 20, 30], 5_000_000, 3);
    let b = result_with(2500, &[3000], &[40], 7_000_000, 4);
    assert!(a.merge(b).is_ok());
    assert_eq!(a.tps_milli, 4000);
    assert_eq!(a.committed_txns, 7);
    assert_eq!(a.elapsed_nanos, 7_000_000);
    assert_eq!(a.txn_latency.observation_count(), 3);
    assert_eq!(a.cmd_latency.observation_count(), 4);
}

#[test]
fn merge_refuses_mismatched_layouts() {
    let mut a = result_with(100, &[1], &[2], 10, 1);
    let config = HistogramConfig { max_value_power: 16 };
    let b = BenchmarkResult {
        tps_milli: 200,
        txn_latency: LatencyRecorder::new(config),
        cmd_latency: LatencyRecorder::new(config),
        elapsed_nanos: 20,
        committed_txns: 1,
    };
    assert_eq!(a.merge(b), Err(HistogramError::IncompatibleConfig));
    assert_eq!(a.tps_milli, 100);
    assert_eq!(a.committed_txns, 1);
}

#[test]
fn empty_aggregate_is_zero_valued() {
    let agg = ResultAggregator::new();
    let r = agg.into_result();
    assert_eq!(r.tps_milli, 0);
    assert_eq!(r.elapsed_nanos, 0);
    assert_eq!(r.committed_txns, 0);
    assert_eq!(r.txn_latency.observation_count(), 0);
    assert_eq!(r.cmd_latency.observation_count(), 0);
}

#[test]
fn aggregation_is_order_independent() {
    let workers = || {
        vec![
            result_with(1000, &[900, 1500], &[50, 60, 70, 80], 2_000_000, 2),
            result_with(3000, &[20_000], &[900], 9_000_000, 1),
            result_with(500, &[123, 456, 789], &[5, 15, 25], 4_000_000, 3),
        ]
    };
    let mut forward = ResultAggregator::new();
    for w in workers() {
        forward.add(w).unwrap();
    }
    let mut backward = ResultAggregator::new();
    for w in workers().into_iter().rev() {
        backward.add(w).unwrap();
    }
    let f = forward.into_result().show();
    let b = backward.into_result().show();
    assert_eq!(f.tps_milli, b.tps_milli);
    assert_eq!(f.committed, b.committed);
    assert_eq!(f.elapsed_millis, b.elapsed_millis);
    assert_eq!(f.txn_lat_min_micros, b.txn_lat_min_micros);
    assert_eq!(f.txn_lat_p50_micros, b.txn_lat_p50_micros);
    assert_eq!(f.txn_lat_p90_micros, b.txn_lat_p90_micros);
    assert_eq!(f.txn_lat_p99_micros, b.txn_lat_p99_micros);
    assert_eq!(f.txn_lat_max_micros, b.txn_lat_max_micros);
    assert_eq!(f.cmd_lat_min_micros, b.cmd_lat_min_micros);
    assert_eq!(f.cmd_lat_p50_micros, b.cmd_lat_p50_micros);
    assert_eq!(f.cmd_lat_p90_micros, b.cmd_lat_p90_micros);
    assert_eq!(f.cmd_lat_p99_micros, b.cmd_lat_p99_micros);
    assert_eq!(f.cmd_lat_max_micros, b.cmd_lat_max_micros);
}

#[test]
fn failed_worker_leaves_committed_count_short() {
    // Three workers of ten transactions each were configured, but one
    // worker's connection failed before it issued anything: it contributes
    // no result at all.
    let worker_count = 3u32;
    let txns_per_worker = 10u32;
    let mut agg = ResultAggregator::new();
    agg.add(result_with(4000, &[100; 10], &[10; 50], 2_500_000, txns_per_worker)).unwrap();
    agg.add(result_with(3900, &[110; 10], &[11; 50], 2_600_000, txns_per_worker)).unwrap();
    let total = agg.into_result();
    assert!(total.committed_txns < worker_count * txns_per_worker);
    assert_eq!(total.committed_txns, 20);
}
