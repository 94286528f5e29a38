use echo_bench::config::{BenchmarkConfig, Mode, OutputFormat};

#[test]
fn config_reports_its_mode_and_expected_committed_count() {
    let config = BenchmarkConfig {
        worker_count: 10,
        txns_per_worker: 10,
        commands_per_txn: 5,
        mode: Mode::Unary,
        output: OutputFormat::Human,
    };
    assert!(!config.uses_streaming());
    assert_eq!(config.expected_committed_count(), 100);

    let streaming = BenchmarkConfig { mode: Mode::Streaming, ..config };
    assert!(streaming.uses_streaming());
}

#[test]
fn expected_committed_count_never_overflows() {
    let config = BenchmarkConfig {
        worker_count: u32::MAX,
        txns_per_worker: u32::MAX,
        commands_per_txn: 1,
        mode: Mode::Unary,
        output: OutputFormat::Structured,
    };
    assert_eq!(
        config.expected_committed_count(),
        (u32::MAX as u64) * (u32::MAX as u64)
    );
}
