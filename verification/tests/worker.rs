use echo_bench::recorder::HistogramConfig;
use echo_bench::worker::{command_payload, UnaryRunner, Worker};

#[test]
fn payloads_are_deterministic_and_padded() {
    assert_eq!(command_payload(0), b"msg 00".to_vec());
    assert_eq!(command_payload(5), b"msg 05".to_vec());
    assert_eq!(command_payload(10), b"msg 10".to_vec());
    assert_eq!(command_payload(42), b"msg 42".to_vec());
    assert_eq!(command_payload(123), b"msg 123".to_vec());
}

#[test]
fn unary_runner_issues_commands_strictly_in_order() {
    let mut runner = UnaryRunner::new(3);
    assert_eq!(runner.next_command(), Some(b"msg 00".to_vec()));
    runner.complete_command();
    assert_eq!(runner.next_command(), Some(b"msg 01".to_vec()));
    runner.complete_command();
    assert_eq!(runner.next_command(), Some(b"msg 02".to_vec()));
    runner.complete_command();
    assert_eq!(runner.next_command(), None);
}

#[test]
fn single_worker_unary_scenario() {
    // One worker, three transactions of two commands each, against an echo
    // service that answers instantly.
    let txns = 3u32;
    let commands = 2u32;
    let config = HistogramConfig { max_value_power: 64 };
    let mut worker = Worker::new(config, txns, commands);
    for _ in 0..txns {
        let mut runner = worker.begin_transaction();
        let mut txn_nanos = 0u64;
        while let Some(payload) = runner.next_command() {
            // The echo service returns the payload unchanged.
            let echoed = payload.clone();
            assert_eq!(echoed, payload);
            let latency = 10_000u64;
            runner.complete_command();
            worker.record_command(latency);
            txn_nanos += latency;
        }
        worker.complete_transaction(txn_nanos);
    }
    let result = worker.finish(60_000u64);
    assert_eq!(result.committed_txns, 3);
    // 3 transactions in 60 microseconds: 50000 tps, exactly.
    assert_eq!(result.tps_milli, 50_000_000);
    assert!(result.tps_milli > 0);
    assert_eq!(result.txn_latency.observation_count(), 3);
    assert_eq!(result.cmd_latency.observation_count(), 6);
}

#[test]
fn throughput_is_exact_integer_arithmetic() {
    let config = HistogramConfig { max_value_power: 64 };
    let mut worker = Worker::new(config, 7, 1);
    for _ in 0..7 {
        worker.complete_transaction(1_000);
    }
    // 7 transactions over 2 seconds: 3.5 tps = 3500 milli-tps.
    let result = worker.finish(2_000_000_000);
    assert_eq!(result.tps_milli, 3_500);
    assert_eq!(result.elapsed_nanos, 2_000_000_000);
}
