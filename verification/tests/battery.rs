use panel_rs::battery::{
    battery_status_label, discover_sysfs_battery, interpret_upower, interpret_upower_read,
    select_upower_device, PowerSupplyEntry, SysfsBackend, UpowerBackend, UpowerDeviceInfo,
};
use panel_rs::catalog::Catalog;
use panel_rs::error::SensorError;

fn entry(dir: &str, type_content: Option<&str>) -> PowerSupplyEntry {
    PowerSupplyEntry {
        dir: dir.to_string(),
        type_content: type_content.map(|s| s.to_string()),
    }
}

#[test]
fn sysfs_discovery_and_read() {
    // One fabricated battery entry; read() recovers (75, "Charging").
    let entries = vec![entry("/fab/BAT0", Some("Battery\n"))];
    let paths = discover_sysfs_battery(&entries).unwrap();
    assert_eq!(paths.capacity, "/fab/BAT0/capacity");
    assert_eq!(paths.status, "/fab/BAT0/status");

    let mut catalog = Catalog::empty();
    catalog.fill(paths);
    let backend = SysfsBackend::from_catalog(&catalog).unwrap();
    assert_eq!(backend.capacity_path, "/fab/BAT0/capacity");

    let (cap, status) = SysfsBackend::interpret("75\n", "Charging\n").unwrap();
    assert_eq!(cap, 75);
    assert_eq!(status, "Charging");
}

#[test]
fn sysfs_discovery_skips_non_batteries() {
    let entries = vec![
        entry("/fab/AC", Some("Mains\n")),
        entry("/fab/BAT1", Some("Battery\n")),
    ];
    let paths = discover_sysfs_battery(&entries).unwrap();
    assert_eq!(paths.capacity, "/fab/BAT1/capacity");
}

#[test]
fn sysfs_discovery_unreadable_type_is_io_error() {
    let entries = vec![entry("/fab/X", None), entry("/fab/BAT0", Some("Battery"))];
    assert!(matches!(discover_sysfs_battery(&entries), Err(SensorError::Io)));
}

#[test]
fn sysfs_discovery_without_battery_is_not_found() {
    let entries = vec![entry("/fab/AC", Some("Mains"))];
    assert!(matches!(
        discover_sysfs_battery(&entries),
        Err(SensorError::NotFound)
    ));
}

#[test]
fn sysfs_configured_device_must_have_files() {
    let ok = SysfsBackend::with_device("/fab/BAT0", true, true).unwrap();
    assert_eq!(ok.status_path, "/fab/BAT0/status");
    assert!(matches!(
        SysfsBackend::with_device("/fab/BAT0", true, false),
        Err(SensorError::NotFound)
    ));
}

#[test]
fn capacity_out_of_range_is_clamped() {
    let (cap, _) = SysfsBackend::interpret("250\n", "Full").unwrap();
    assert_eq!(cap, 100);
    let (cap2, status2) = interpret_upower(250, 1);
    assert_eq!(cap2, 100);
    assert_eq!(status2, "Charging");
}

#[test]
fn plus_signed_capacity_parses() {
    let (cap, _) = SysfsBackend::interpret("+75\n", "Full").unwrap();
    assert_eq!(cap, 75);
}

#[test]
fn malformed_capacity_is_parse_error() {
    assert!(matches!(
        SysfsBackend::interpret("many\n", "Full"),
        Err(SensorError::Parse)
    ));
}

fn device(path: &str, device_type: u32, native: Option<&str>) -> UpowerDeviceInfo {
    UpowerDeviceInfo {
        path: path.to_string(),
        device_type,
        native_path: native.map(|s| s.to_string()),
    }
}

#[test]
fn upower_selects_first_battery_by_default() {
    let devices = vec![
        device("/up/line_power_AC", 1, None),
        device("/up/battery_BAT0", 2, Some("BAT0")),
        device("/up/battery_BAT1", 2, Some("BAT1")),
    ];
    let i = select_upower_device(&devices, &None).unwrap();
    assert_eq!(i, 1);
}

#[test]
fn upower_selects_by_native_path() {
    let devices = vec![
        device("/up/battery_BAT0", 2, Some("BAT0")),
        device("/up/battery_BAT1", 2, Some("BAT1")),
    ];
    let backend = UpowerBackend::new(&devices, &Some("BAT1".to_string())).unwrap();
    assert_eq!(backend.device_path, "/up/battery_BAT1");
}

#[test]
fn upower_selects_by_object_path() {
    let devices = vec![
        device("/up/battery_BAT0", 2, Some("BAT0")),
        device("/up/battery_BAT1", 2, Some("BAT1")),
    ];
    let i = select_upower_device(&devices, &Some("/up/battery_BAT1".to_string())).unwrap();
    assert_eq!(i, 1);
}

#[test]
fn upower_unmatched_filter_is_not_found() {
    let devices = vec![device("/up/battery_BAT0", 2, Some("BAT0"))];
    assert!(matches!(
        select_upower_device(&devices, &Some("BAT9".to_string())),
        Err(SensorError::NotFound)
    ));
}

#[test]
fn upower_without_battery_is_not_found() {
    let devices = vec![device("/up/line_power_AC", 1, None)];
    assert!(matches!(
        UpowerBackend::new(&devices, &None),
        Err(SensorError::NotFound)
    ));
}

#[test]
fn upower_status_vocabulary() {
    assert_eq!(battery_status_label(0), "Unknown");
    assert_eq!(battery_status_label(1), "Charging");
    assert_eq!(battery_status_label(2), "Discharging");
    assert_eq!(battery_status_label(3), "Empty");
    assert_eq!(battery_status_label(4), "Fully charged");
    assert_eq!(battery_status_label(7), "Other");
}

#[test]
fn upower_reading_truncates_and_labels() {
    let (cap, status) = interpret_upower(87, 2);
    assert_eq!(cap, 87);
    assert_eq!(status, "Discharging");
}

#[test]
fn upower_failed_property_query_is_backend_error() {
    assert!(matches!(
        interpret_upower_read(None, Some(1)),
        Err(SensorError::Backend)
    ));
    assert!(matches!(
        interpret_upower_read(Some(80), None),
        Err(SensorError::Backend)
    ));
    assert_eq!(interpret_upower_read(Some(80), Some(4)).unwrap(), (80, "Fully charged".to_string()));
}
