use panel_rs::catalog::Catalog;
use panel_rs::error::SensorError;
use panel_rs::hwmon::{discover_hwmon_sensors, HwmonBackend, HwmonChip, HwmonFile};
use panel_rs::lm_sensors::{
    discover_lm_labels, LmSensorsBackend, SensorChip, SensorFeature,
};
use panel_rs::temp::SensorSource;
use panel_rs::thermal::{discover_thermal_zones, ThermalZoneBackend, ThermalZoneEntry};

fn zone(name: &str, dir: &str, sensor_type: Option<&str>, has_temp: bool) -> ThermalZoneEntry {
    ThermalZoneEntry {
        name: name.to_string(),
        dir: dir.to_string(),
        type_content: sensor_type.map(|s| s.to_string()),
        has_temp,
    }
}

fn two_zones() -> Vec<ThermalZoneEntry> {
    vec![
        zone("thermal_zone0", "/fab/thermal_zone0", Some("x86_pkg_temp\n"), true),
        zone("thermal_zone1", "/fab/thermal_zone1", Some("acpitz\n"), true),
    ]
}

#[test]
fn discovery_and_read() {
    let zones = discover_thermal_zones(&two_zones()).unwrap();
    assert_eq!(zones.len(), 2);
    assert_eq!(zones[0].label, "x86_pkg_temp");
    assert_eq!(zones[0].path, "/fab/thermal_zone0/temp");

    let mut catalog = Catalog::empty();
    catalog.fill(zones);
    let backend = ThermalZoneBackend::new(&catalog, &vec![]).unwrap();
    let raw = vec![Some("42000\n".to_string()), Some("30000\n".to_string())];
    let temps = backend.read_from(&raw).unwrap();
    assert_eq!(temps.len(), 2);
    assert!(temps
        .iter()
        .any(|t| t.label == "x86_pkg_temp" && (t.milli_celsius as f64 / 1000.0 - 42.0).abs() < 1e-6));
    assert!(temps
        .iter()
        .any(|t| t.label == "acpitz" && (t.milli_celsius as f64 / 1000.0 - 30.0).abs() < 1e-6));
}

#[test]
fn thermal_filter_retains_matches_only() {
    let zones = discover_thermal_zones(&two_zones()).unwrap();
    let mut catalog = Catalog::empty();
    catalog.fill(zones);
    let backend = ThermalZoneBackend::new(&catalog, &vec!["acpitz".to_string()]).unwrap();
    assert_eq!(backend.zones.len(), 1);
    assert_eq!(backend.zones[0].label, "acpitz");
}

#[test]
fn thermal_filter_without_match_is_not_found() {
    let zones = discover_thermal_zones(&two_zones()).unwrap();
    let mut catalog = Catalog::empty();
    catalog.fill(zones);
    assert!(matches!(
        ThermalZoneBackend::new(&catalog, &vec!["chipA-T1".to_string()]),
        Err(SensorError::NotFound)
    ));
}

#[test]
fn thermal_skips_foreign_entries_and_requires_some_zone() {
    let entries = vec![zone("cooling_device0", "/fab/cooling_device0", None, false)];
    assert!(matches!(
        discover_thermal_zones(&entries),
        Err(SensorError::NotFound)
    ));
}

#[test]
fn thermal_unreadable_type_is_io_error() {
    let entries = vec![zone("thermal_zone0", "/fab/thermal_zone0", None, true)];
    assert!(matches!(discover_thermal_zones(&entries), Err(SensorError::Io)));
}

#[test]
fn thermal_bad_temp_file_fails_whole_read() {
    let zones = discover_thermal_zones(&two_zones()).unwrap();
    let mut catalog = Catalog::empty();
    catalog.fill(zones);
    let backend = ThermalZoneBackend::new(&catalog, &vec![]).unwrap();
    let raw = vec![Some("42000".to_string()), None];
    assert!(matches!(backend.read_from(&raw), Err(SensorError::Io)));
    let raw2 = vec![Some("42000".to_string()), Some("warm".to_string())];
    assert!(matches!(backend.read_from(&raw2), Err(SensorError::Parse)));
}

#[test]
fn thermal_reads_negative_millidegrees() {
    let zones = discover_thermal_zones(&two_zones()).unwrap();
    let mut catalog = Catalog::empty();
    catalog.fill(zones);
    let backend = ThermalZoneBackend::new(&catalog, &vec![]).unwrap();
    let raw = vec![Some("-5000\n".to_string()), Some("0\n".to_string())];
    let temps = backend.read_from(&raw).unwrap();
    assert_eq!(temps[0].milli_celsius, -5000);
    assert!((temps[0].milli_celsius as f64 / 1000.0 + 5.0).abs() < 1e-6);
    assert_eq!(temps[1].milli_celsius, 0);
}

#[test]
fn thermal_reads_signed_millidegrees() {
    let zones = discover_thermal_zones(&two_zones()).unwrap();
    let mut catalog = Catalog::empty();
    catalog.fill(zones);
    let backend = ThermalZoneBackend::new(&catalog, &vec![]).unwrap();
    let raw = vec![Some("+42000\n".to_string()), Some("30000\n".to_string())];
    let temps = backend.read_from(&raw).unwrap();
    assert_eq!(temps[0].milli_celsius, 42000);
}

#[test]
fn discovery_is_cached_across_instances() {
    // Two backends of the same kind share one catalog: the second
    // construction must not trigger a second scan.
    let mut scan_count: u32 = 0;
    let mut catalog: Catalog<Vec<SensorSource>> = Catalog::empty();
    for _ in 0..2 {
        if !catalog.ready() {
            scan_count += 1;
            let zones = discover_thermal_zones(&two_zones()).unwrap();
            catalog.fill(zones);
        }
        let backend = ThermalZoneBackend::new(&catalog, &vec![]).unwrap();
        assert_eq!(backend.zones.len(), 2);
    }
    assert_eq!(scan_count, 1);
}

fn fab_hwmon() -> Vec<HwmonChip> {
    vec![
        HwmonChip {
            name_content: Some("chipA\n".to_string()),
            files: vec![HwmonFile {
                file_name: "temp1_input".to_string(),
                path: "/fab/hwmon0/temp1_input".to_string(),
                label_content: Some("T1\n".to_string()),
            }],
        },
        HwmonChip {
            name_content: Some("chipB\n".to_string()),
            files: vec![HwmonFile {
                file_name: "temp2_input".to_string(),
                path: "/fab/hwmon1/temp2_input".to_string(),
                label_content: None,
            }],
        },
    ]
}

#[test]
fn discover_and_read_all() {
    let sensors = discover_hwmon_sensors(&fab_hwmon()).unwrap();
    let mut catalog = Catalog::empty();
    catalog.fill(sensors);
    let backend = HwmonBackend::new(&catalog, &vec![]).unwrap();
    let raw = vec![Some("42000\n".to_string()), Some("31000\n".to_string())];
    let readings = backend.read_from(&raw).unwrap();
    assert_eq!(readings.len(), 2);
    assert!(readings
        .iter()
        .any(|t| t.label == "chipA-T1" && (t.milli_celsius as f64 / 1000.0 - 42.0).abs() < 1e-6));
    assert!(readings
        .iter()
        .any(|t| t.label.starts_with("chipB")
            && (t.milli_celsius as f64 / 1000.0 - 31.0).abs() < 1e-6));
}

#[test]
fn filter_by_name() {
    let sensors = discover_hwmon_sensors(&fab_hwmon()).unwrap();
    let mut catalog = Catalog::empty();
    catalog.fill(sensors);
    let backend = HwmonBackend::new(&catalog, &vec!["chipA-T1".to_string()]).unwrap();
    let raw = vec![Some("42000\n".to_string())];
    let readings = backend.read_from(&raw).unwrap();
    assert_eq!(readings.len(), 1);
    assert_eq!(readings[0].label, "chipA-T1");
    assert!((readings[0].milli_celsius as f64 / 1000.0 - 42.0).abs() < 1e-6);
}

#[test]
fn hwmon_unreadable_chip_name_falls_back() {
    let chips = vec![HwmonChip {
        name_content: None,
        files: vec![HwmonFile {
            file_name: "temp1_input".to_string(),
            path: "/fab/hwmonX/temp1_input".to_string(),
            label_content: None,
        }],
    }];
    let sensors = discover_hwmon_sensors(&chips).unwrap();
    assert_eq!(sensors[0].label, "hwmon-temp1_input");
}

#[test]
fn hwmon_without_sensors_is_not_found() {
    let chips = vec![HwmonChip {
        name_content: Some("chipA".to_string()),
        files: vec![HwmonFile {
            file_name: "fan1_input".to_string(),
            path: "/fab/hwmon0/fan1_input".to_string(),
            label_content: None,
        }],
    }];
    assert!(matches!(
        discover_hwmon_sensors(&chips),
        Err(SensorError::NotFound)
    ));
}

fn fab_report() -> Vec<SensorChip> {
    vec![
        SensorChip {
            name: "coretemp-isa-0000".to_string(),
            features: vec![
                SensorFeature {
                    name: "temp1".to_string(),
                    has_input: true,
                    input_milli: Some(42000),
                },
                SensorFeature {
                    name: "fan1".to_string(),
                    has_input: false,
                    input_milli: None,
                },
            ],
        },
        SensorChip {
            name: "acpitz-acpi-0".to_string(),
            features: vec![SensorFeature {
                name: "temp1".to_string(),
                has_input: true,
                input_milli: Some(30000),
            }],
        },
    ]
}

#[test]
fn discover_and_read_lm() {
    let report = fab_report();
    let labels = discover_lm_labels(&report);
    assert_eq!(
        labels,
        vec![
            "acpitz-acpi-0:temp1".to_string(),
            "coretemp-isa-0000:temp1".to_string()
        ]
    );

    let mut catalog = Catalog::empty();
    catalog.fill(labels);
    let backend = LmSensorsBackend::new(&catalog, &vec![]).unwrap();
    let v = backend.read_from(&report).unwrap();
    assert!(!v.is_empty(), "No LM\u{202f}Sensors found");
}

#[test]
fn lm_read_matches_chip_and_feature() {
    // Both chips expose a `temp1` feature; only the chip named in the
    // label answers, so each label yields exactly one reading.
    let report = fab_report();
    let backend = LmSensorsBackend {
        sensors: vec![
            "coretemp-isa-0000:temp1".to_string(),
            "acpitz-acpi-0:temp1".to_string(),
        ],
    };
    let readings = backend.read_from(&report).unwrap();
    assert_eq!(readings.len(), 2);
    assert_eq!(readings[0].label, "coretemp-isa-0000:temp1");
    assert_eq!(readings[0].milli_celsius, 42000);
    assert_eq!(readings[1].label, "acpitz-acpi-0:temp1");
    assert_eq!(readings[1].milli_celsius, 30000);
}

#[test]
fn lm_read_missing_label_fails_whole_call() {
    // A selected label the fresh report no longer answers fails the
    // call instead of silently shrinking the list.
    let report = fab_report();
    let backend = LmSensorsBackend {
        sensors: vec![
            "coretemp-isa-0000:temp1".to_string(),
            "coretemp-isa-0000:temp9".to_string(),
        ],
    };
    assert!(matches!(backend.read_from(&report), Err(SensorError::NotFound)));
    // A feature without a numeric input reading counts as missing too.
    let backend2 = LmSensorsBackend {
        sensors: vec!["coretemp-isa-0000:fan1".to_string()],
    };
    assert!(matches!(backend2.read_from(&report), Err(SensorError::NotFound)));
}

#[test]
fn lm_filter_without_match_is_not_found() {
    let mut catalog = Catalog::empty();
    catalog.fill(discover_lm_labels(&fab_report()));
    assert!(matches!(
        LmSensorsBackend::new(&catalog, &vec!["nope:temp9".to_string()]),
        Err(SensorError::NotFound)
    ));
}

#[test]
fn lm_filter_retains_matches_only() {
    let mut catalog = Catalog::empty();
    catalog.fill(discover_lm_labels(&fab_report()));
    let backend =
        LmSensorsBackend::new(&catalog, &vec!["acpitz-acpi-0:temp1".to_string()]).unwrap();
    assert_eq!(backend.sensors, vec!["acpitz-acpi-0:temp1".to_string()]);
}
