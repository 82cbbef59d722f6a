use panel_rs::cpu::{compute_usage, CpuSnapshot, CpuStatBackend};
use panel_rs::error::SensorError;

#[test]
fn parse_cpu_line() {
    let line = "cpu 100 200 300 400 50 60";
    let snap = CpuSnapshot::from_line(line).unwrap();
    assert_eq!(snap.idle, 400);
    assert_eq!(snap.total, 1110);
}

#[test]
fn parse_cpu_line_four_fields_only() {
    let snap = CpuSnapshot::from_line("cpu 1 2 3 4").unwrap();
    assert_eq!(snap.idle, 4);
    assert_eq!(snap.total, 10);
}

#[test]
fn parse_cpu_line_counts_all_fields() {
    // Every numeric field on the line contributes to the total, the
    // guest counters included.
    let snap = CpuSnapshot::from_line("cpu 1 1 1 1 1 1 1 1 100 100").unwrap();
    assert_eq!(snap.idle, 1);
    assert_eq!(snap.total, 208);
}

#[test]
fn parse_cpu_line_rejects_malformed_late_field() {
    // A malformed field fails the parse wherever it stands on the line.
    assert_eq!(
        CpuSnapshot::from_line("cpu 1 1 1 1 1 1 1 1 bad"),
        Err(SensorError::Parse)
    );
}

#[test]
fn parse_cpu_line_accepts_plus_signed_counter() {
    // `str::parse` accepts one leading plus sign on an unsigned field.
    let snap = CpuSnapshot::from_line("cpu +1 2 3 4").unwrap();
    assert_eq!(snap.total, 10);
    assert_eq!(CpuSnapshot::from_line("cpu ++1 2 3 4"), Err(SensorError::Parse));
}

#[test]
fn parse_cpu_line_rejects_wrong_tag() {
    assert_eq!(
        CpuSnapshot::from_line("cpu0 100 200 300 400"),
        Err(SensorError::Parse)
    );
}

#[test]
fn parse_cpu_line_rejects_short_line() {
    assert_eq!(CpuSnapshot::from_line("cpu 100 200 300"), Err(SensorError::Parse));
}

#[test]
fn parse_cpu_line_rejects_non_numeric() {
    assert_eq!(
        CpuSnapshot::from_line("cpu 100 two 300 400"),
        Err(SensorError::Parse)
    );
}

#[test]
fn parse_cpu_line_accepts_largest_counter() {
    let snap = CpuSnapshot::from_line("cpu 18446744073709551615 0 0 0").unwrap();
    assert_eq!(snap.total, u64::MAX);
    assert_eq!(snap.idle, 0);
}

#[test]
fn parse_cpu_line_rejects_counter_overflow() {
    // A single counter beyond the representable range.
    assert_eq!(
        CpuSnapshot::from_line("cpu 18446744073709551616 0 0 0"),
        Err(SensorError::Parse)
    );
    // Counters whose sum overflows.
    assert_eq!(
        CpuSnapshot::from_line("cpu 18446744073709551615 1 0 0"),
        Err(SensorError::Parse)
    );
}

#[test]
fn compute_usage_zero_delta() {
    let s = CpuSnapshot { idle: 10, total: 20 };
    assert_eq!(compute_usage(s, s), 0);
    assert_eq!(compute_usage(s, s) as f64 / 100.0, 0.0);
}

#[test]
fn compute_usage_nonzero() {
    let old = CpuSnapshot { idle: 10, total: 20 };
    let new = CpuSnapshot { idle: 20, total: 40 };
    assert!((compute_usage(old, new) as f64 / 100.0 - 50.0).abs() < 1e-6);
}

#[test]
fn compute_usage_saturates_on_wraparound() {
    let old = CpuSnapshot { idle: 50, total: 100 };
    let new = CpuSnapshot { idle: 10, total: 20 };
    assert_eq!(compute_usage(old, new), 0);
}

#[test]
fn tracker_consumes_one_interval_per_advance() {
    let s1 = CpuSnapshot { idle: 10, total: 20 };
    let s2 = CpuSnapshot { idle: 20, total: 40 };
    let s3 = CpuSnapshot { idle: 20, total: 60 };
    let mut backend = CpuStatBackend::new(s1);
    assert_eq!(backend.advance(s2), 5000);
    // The stored snapshot moved to s2, so this interval is s2 to s3.
    assert_eq!(backend.advance(s3), 10000);
}
