use echo_bench::recorder::{HistogramConfig, LatencyRecorder};
use echo_bench::report::percentile_ms;
use echo_bench::result::BenchmarkResult;

#[test]
fn percentile_ms_converts_nanoseconds_to_microseconds() {
    let mut r = LatencyRecorder::new(HistogramConfig { max_value_power: 64 });
    // 3_000_000 ns: bucket [2097152, 4194303], midpoint 3145727 ns.
    r.record(3_000_000);
    assert_eq!(percentile_ms(&r, 50), 3145727 / 1000);
}

#[test]
fn percentile_ms_is_zero_on_an_empty_recorder() {
    let r = LatencyRecorder::new(HistogramConfig { max_value_power: 64 });
    assert_eq!(percentile_ms(&r, 0), 0);
    assert_eq!(percentile_ms(&r, 100), 0);
}

#[test]
fn report_carries_all_thirteen_fields() {
    let config = HistogramConfig { max_value_power: 64 };
    let mut txn_latency = LatencyRecorder::new(config);
    txn_latency.record(2_000_000); // bucket [1048576, 2097151], mid 1572863
    let mut cmd_latency = LatencyRecorder::new(config);
    cmd_latency.record(40_000); // bucket [32768, 65535], mid 49151
    let result = BenchmarkResult {
        tps_milli: 1234,
        txn_latency,
        cmd_latency,
        elapsed_nanos: 2_500_000_000,
        committed_txns: 42,
    };
    let report = result.show();
    assert_eq!(report.elapsed_millis, 2_500);
    assert_eq!(report.committed, 42);
    assert_eq!(report.tps_milli, 1234);
    assert_eq!(report.txn_lat_min_micros, 1572);
    assert_eq!(report.txn_lat_p50_micros, 1572);
    assert_eq!(report.txn_lat_p90_micros, 1572);
    assert_eq!(report.txn_lat_p99_micros, 1572);
    assert_eq!(report.txn_lat_max_micros, 1572);
    assert_eq!(report.cmd_lat_min_micros, 49);
    assert_eq!(report.cmd_lat_p50_micros, 49);
    assert_eq!(report.cmd_lat_p90_micros, 49);
    assert_eq!(report.cmd_lat_p99_micros, 49);
    assert_eq!(report.cmd_lat_max_micros, 49);
}
