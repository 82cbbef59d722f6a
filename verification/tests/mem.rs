use panel_rs::error::SensorError;
use panel_rs::mem::MemInfo;

#[test]
fn parse_direct_available() {
    let blob = "MemTotal:       16389856 kB\nMemAvailable:    8000000 kB\n";
    let info = MemInfo::from_text(blob).unwrap();
    assert_eq!(info.total_kb, 16389856);
    assert_eq!(info.available_kb, 8000000);
    let pct = info.usage_percent() as f64 / 100.0;
    assert!((0.0..=100.0).contains(&pct));
}

#[test]
fn parse_derived_available() {
    let blob = "MemTotal:       16389856 kB\nMemFree:        4000000 kB\nBuffers:         500000 kB\nCached:         1500000 kB\n";
    let info = MemInfo::from_text(blob).unwrap();
    assert_eq!(info.total_kb, 16389856);
    assert_eq!(info.available_kb, 6000000);
    let pct = info.usage_percent() as f64 / 100.0;
    assert!((0.0..=100.0).contains(&pct));
}

#[test]
fn both_paths_agree_on_equal_amounts() {
    let direct = "MemTotal: 100 kB\nMemAvailable: 25 kB\n";
    let derived = "MemTotal: 100 kB\nMemFree: 10 kB\nBuffers: 10 kB\nCached: 5 kB\n";
    let a = MemInfo::from_text(direct).unwrap();
    let b = MemInfo::from_text(derived).unwrap();
    assert_eq!(a, b);
}

#[test]
fn direct_available_wins_regardless_of_line_order() {
    // The fallback keys come first; the direct value must still win:
    // the scan reads the whole blob, so line order cannot matter.
    let blob = "MemTotal: 100 kB\nMemFree: 10 kB\nBuffers: 10 kB\nCached: 5 kB\nMemAvailable: 40 kB\n";
    let info = MemInfo::from_text(blob).unwrap();
    assert_eq!(info.available_kb, 40);
}

#[test]
fn malformed_late_line_is_parse_error() {
    // Even once enough keys were seen, a malformed recognized line
    // later in the blob fails the parse.
    let blob = "MemTotal: 100 kB\nMemAvailable: 40 kB\nCached: lots kB\n";
    assert_eq!(MemInfo::from_text(blob), Err(SensorError::Parse));
}

#[test]
fn usage_percent_exact() {
    let info = MemInfo { total_kb: 100, available_kb: 25 };
    assert_eq!(info.usage_percent(), 7500);
    assert!((info.usage_percent() as f64 / 100.0 - 75.0).abs() < 1e-6);
}

#[test]
fn usage_percent_zero_total() {
    let info = MemInfo { total_kb: 0, available_kb: 25 };
    assert_eq!(info.usage_percent(), 0);
}

#[test]
fn missing_total_is_parse_error() {
    let blob = "MemFree: 10 kB\nBuffers: 10 kB\nCached: 5 kB\n";
    assert_eq!(MemInfo::from_text(blob), Err(SensorError::Parse));
}

#[test]
fn missing_fallback_field_is_parse_error() {
    let blob = "MemTotal: 100 kB\nMemFree: 10 kB\nBuffers: 10 kB\n";
    assert_eq!(MemInfo::from_text(blob), Err(SensorError::Parse));
}

#[test]
fn malformed_value_is_parse_error() {
    let blob = "MemTotal: lots kB\n";
    assert_eq!(MemInfo::from_text(blob), Err(SensorError::Parse));
}
