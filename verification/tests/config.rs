use panel_rs::battery::BatteryBackendKind;
use panel_rs::config::{
    default_items, default_refresh_secs, Config, ModuleConfig, Refreshable,
};
use panel_rs::error::SensorError;
use panel_rs::items::{plan_items, ItemKind};
use panel_rs::temp::TempBackendKind;

#[test]
fn defaults() {
    assert_eq!(default_refresh_secs(), 1);
    assert!(default_items().is_empty());
    let cfg = Config::default();
    assert!(cfg.items.is_empty());
    assert_eq!(cfg.refresh_secs, 1);
    assert!(matches!(cfg.modules.battery.backend, BatteryBackendKind::Sysfs));
    assert!(matches!(cfg.modules.temp.backend, TempBackendKind::ThermalZone));
    assert_eq!(cfg.modules.clock.format, "%H:%M:%S");
}

#[test]
fn zero_refresh_is_rejected() {
    let mut cfg = Config::default();
    cfg.refresh_secs = 0;
    assert_eq!(cfg.validate_and_fill(), Err(SensorError::Parse));
}

#[test]
fn fill_respects_module_overrides() {
    let mut cfg = Config::default();
    cfg.refresh_secs = 5;
    cfg.modules.battery.refresh_secs = Some(30);
    cfg.modules.cpu.refresh_secs = Some(2);
    cfg.validate_and_fill().unwrap();
    // An explicit battery rate is kept; missing rates get the global
    // one; the CPU rate always follows the global interval.
    assert_eq!(cfg.modules.battery.refresh_secs, Some(30));
    assert_eq!(cfg.modules.mem.refresh_secs, Some(5));
    assert_eq!(cfg.modules.clock.refresh_secs, Some(5));
    assert_eq!(cfg.modules.temp.refresh_secs, Some(5));
    assert_eq!(cfg.modules.cpu.refresh_secs, Some(5));
}

#[test]
fn fill_default_refresh_direct() {
    let mut modules = ModuleConfig::default();
    modules.fill_default_refresh(7);
    assert_eq!(modules.battery.refresh_secs, Some(7));
    assert_eq!(modules.cpu.refresh_secs, Some(7));
}

#[test]
fn load_empty_list() {
    let cfg = Config::default();
    assert!(plan_items(&cfg.items).is_empty());
}

#[test]
fn preserves_order() {
    let names = vec!["clock".to_string(), "unknown".to_string(), "clock".to_string()];
    let plan = plan_items(&names);
    assert_eq!(plan.len(), 2);
    assert_eq!(plan[0], ItemKind::Clock);
    assert_eq!(plan[1], ItemKind::Clock);
}

#[test]
fn load_clock_item() {
    let names = vec!["bar".to_string(), "clock".to_string()];
    let plan = plan_items(&names);
    assert_eq!(plan.len(), 1);
    assert_eq!(plan[0], ItemKind::Clock);
}

#[test]
fn skip_unknown_items() {
    let names = vec!["foo".to_string(), "clock".to_string()];
    let plan = plan_items(&names);
    // "foo" is unknown and must be skipped
    assert_eq!(plan.len(), 1);
    assert_eq!(plan[0], ItemKind::Clock);
}

#[test]
fn load_temp_item() {
    let names = vec!["temp".to_string()];
    let plan = plan_items(&names);
    assert_eq!(plan.len(), 1);
    assert_eq!(plan[0], ItemKind::Temp);
}

#[test]
fn all_item_kinds_resolve() {
    let names = vec![
        "clock".to_string(),
        "battery".to_string(),
        "cpu".to_string(),
        "mem".to_string(),
        "temp".to_string(),
    ];
    let plan = plan_items(&names);
    assert_eq!(
        plan,
        vec![
            ItemKind::Clock,
            ItemKind::Battery,
            ItemKind::Cpu,
            ItemKind::Mem,
            ItemKind::Temp
        ]
    );
}

#[test]
fn error_labels() {
    assert_eq!(SensorError::Io.label(), "I/O error");
    assert_eq!(SensorError::Parse.label(), "parse error");
    assert_eq!(SensorError::NotFound.label(), "not found");
    assert_eq!(SensorError::Backend.label(), "backend error");
}
