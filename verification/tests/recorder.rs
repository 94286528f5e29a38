use echo_bench::recorder::{HistogramConfig, HistogramError, LatencyRecorder};

fn cfg() -> HistogramConfig {
    HistogramConfig { max_value_power: 64 }
}

#[test]
fn empty_recorder_has_no_percentiles() {
    let r = LatencyRecorder::new(cfg());
    assert_eq!(r.observation_count(), 0);
    assert!(r.percentile(0).is_none());
    assert!(r.percentile(50).is_none());
    assert!(r.percentile(100).is_none());
}

#[test]
fn zero_duration_lands_in_bucket_zero() {
    let mut r = LatencyRecorder::new(cfg());
    r.record(0);
    assert_eq!(r.percentile(0), Some(0));
    assert_eq!(r.percentile(100), Some(0));
}

#[test]
fn single_observation_reports_its_bucket_midpoint() {
    // 1000 has binary length 10: bucket [512, 1023], midpoint 767.
    let mut r = LatencyRecorder::new(cfg());
    r.record(1000);
    assert_eq!(r.observation_count(), 1);
    assert_eq!(r.percentile(0), Some(767));
    assert_eq!(r.percentile(50), Some(767));
    assert_eq!(r.percentile(100), Some(767));
}

#[test]
fn percentile_formula_on_one_to_one_hundred() {
    // Observations 1..=100 fill buckets by binary length:
    // counts 1, 2, 4, 8, 16, 32, 37; cumulative 1, 3, 7, 15, 31, 63, 100.
    let mut r = LatencyRecorder::new(cfg());
    for d in 1..=100u64 {
        r.record(d);
    }
    // rank 50 first reached in bucket [32, 63]: midpoint 47.
    assert_eq!(r.percentile(50), Some(47));
    // rank 90 first reached in bucket [64, 127]: midpoint 95.
    assert_eq!(r.percentile(90), Some(95));
    // rank 1: bucket [1, 1], midpoint 1.
    assert_eq!(r.percentile(0), Some(1));
    assert_eq!(r.percentile(100), Some(95));
}

#[test]
fn percentiles_are_monotone_and_max_is_within_one_bucket_width() {
    let durations: [u64; 7] = [90, 15, 3_000_000, 42, 7, 950_000, 123_456];
    let mut r = LatencyRecorder::new(cfg());
    for d in durations {
        r.record(d);
    }
    let p0 = r.percentile(0).unwrap();
    let p50 = r.percentile(50).unwrap();
    let p90 = r.percentile(90).unwrap();
    let p99 = r.percentile(99).unwrap();
    let p100 = r.percentile(100).unwrap();
    assert!(p0 <= p50 && p50 <= p90 && p90 <= p99 && p99 <= p100);
    // max = 3_000_000, binary length 22: bucket [2097152, 4194303].
    let low: u64 = 1 << 21;
    let high: u64 = (1 << 22) - 1;
    let width = high - low;
    let max = 3_000_000u64;
    assert!(p100 <= max + width && max <= p100 + width);
}

#[test]
fn merged_recorder_matches_one_built_from_all_observations() {
    let xs: [u64; 4] = [5, 900, 12_000, 77];
    let ys: [u64; 3] = [64, 2, 500_000];
    let mut a = LatencyRecorder::new(cfg());
    for d in xs {
        a.record(d);
    }
    let mut b = LatencyRecorder::new(cfg());
    for d in ys {
        b.record(d);
    }
    let mut union = LatencyRecorder::new(cfg());
    for d in ys {
        union.record(d);
    }
    for d in xs {
        union.record(d);
    }
    assert!(a.merge(b).is_ok());
    assert_eq!(a.observation_count(), 7);
    for p in 0..=100u64 {
        assert_eq!(a.percentile(p), union.percentile(p));
    }
}

#[test]
fn merge_is_order_independent() {
    let xs: [u64; 3] = [10, 20_000, 3];
    let ys: [u64; 2] = [400, 1_000_000];
    let mut ab = LatencyRecorder::new(cfg());
    for d in xs {
        ab.record(d);
    }
    let mut b1 = LatencyRecorder::new(cfg());
    for d in ys {
        b1.record(d);
    }
    ab.merge(b1).unwrap();

    let mut ba = LatencyRecorder::new(cfg());
    for d in ys {
        ba.record(d);
    }
    let mut a1 = LatencyRecorder::new(cfg());
    for d in xs {
        a1.record(d);
    }
    ba.merge(a1).unwrap();

    for p in 0..=100u64 {
        assert_eq!(ab.percentile(p), ba.percentile(p));
    }
}

#[test]
fn merge_refuses_incompatible_layouts() {
    let mut a = LatencyRecorder::new(HistogramConfig { max_value_power: 64 });
    a.record(123);
    let mut b = LatencyRecorder::new(HistogramConfig { max_value_power: 32 });
    b.record(456);
    assert_eq!(a.merge(b), Err(HistogramError::IncompatibleConfig));
    assert_eq!(a.observation_count(), 1);
    assert_eq!(a.percentile(50), Some(95));
}

#[test]
fn smaller_layout_clamps_large_values_into_top_bucket() {
    let mut r = LatencyRecorder::new(HistogramConfig { max_value_power: 8 });
    r.record(u64::MAX);
    // Top bucket covers [128, u64::MAX]: midpoint 128 + (u64::MAX - 128) / 2.
    assert_eq!(r.percentile(100), Some(128 + (u64::MAX - 128) / 2));
}
