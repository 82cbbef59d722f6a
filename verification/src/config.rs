//! Configuration values for the telemetry items: which backend variant
//! each metric uses, optional device and sensor filters, and refresh
//! intervals, with the global interval filled into modules that do not
//! override it.

use vstd::prelude::*;

use crate::battery::BatteryBackendKind;
use crate::error::SensorError;
use crate::temp::TempBackendKind;

verus! {

/// Clock item settings.
pub struct ClockConfig {
    pub refresh_secs: Option<u32>,
    pub format: String,
}

impl Default for ClockConfig {
    fn default() -> (r: ClockConfig)
        ensures
            r.refresh_secs is None,
            r.format@ == "%H:%M:%S"@,
    {
        ClockConfig { refresh_secs: None, format: "%H:%M:%S".to_owned() }
    }
}

/// CPU item settings.
pub struct CpuConfig {
    pub refresh_secs: Option<u32>,
}

impl Default for CpuConfig {
    fn default() -> (r: CpuConfig)
        ensures
            r.refresh_secs is None,
    {
        CpuConfig { refresh_secs: None }
    }
}

/// Memory item settings.
pub struct MemConfig {
    pub refresh_secs: Option<u32>,
}

impl Default for MemConfig {
    fn default() -> (r: MemConfig)
        ensures
            r.refresh_secs is None,
    {
        MemConfig { refresh_secs: None }
    }
}

/// Battery item settings.
pub struct BatteryConfig {
    pub backend: BatteryBackendKind,
    pub device: Option<String>,
    pub refresh_secs: Option<u32>,
}

impl Default for BatteryConfig {
    fn default() -> (r: BatteryConfig)
        ensures
            r.backend == BatteryBackendKind::Sysfs,
            r.device is None,
            r.refresh_secs is None,
    {
        BatteryConfig {
            backend: BatteryBackendKind::Sysfs,
            device: None,
            refresh_secs: None,
        }
    }
}

/// Temperature item settings.
pub struct TempConfig {
    pub backend: TempBackendKind,
    pub refresh_secs: Option<u32>,
    pub sensors: Vec<String>,
}

impl Default for TempConfig {
    fn default() -> (r: TempConfig)
        ensures
            r.backend == TempBackendKind::ThermalZone,
            r.refresh_secs is None,
            r.sensors@.len() == 0,
    {
        TempConfig {
            backend: TempBackendKind::ThermalZone,
            refresh_secs: None,
            sensors: Vec::new(),
        }
    }
}

/// The per-module settings.
pub struct ModuleConfig {
    pub clock: ClockConfig,
    pub cpu: CpuConfig,
    pub mem: MemConfig,
    pub battery: BatteryConfig,
    pub temp: TempConfig,
}

impl Default for ModuleConfig {
    fn default() -> (r: ModuleConfig)
        ensures
            r.clock.refresh_secs is None,
            r.cpu.refresh_secs is None,
            r.mem.refresh_secs is None,
            r.battery == (BatteryConfig {
                backend: BatteryBackendKind::Sysfs,
                device: None,
                refresh_secs: None,
            }),
            r.temp.backend == TempBackendKind::ThermalZone,
            r.temp.refresh_secs is None,
            r.temp.sensors@.len() == 0,
            r.clock.format@ == "%H:%M:%S"@,
    {
        ModuleConfig {
            clock: ClockConfig::default(),
            cpu: CpuConfig::default(),
            mem: MemConfig::default(),
            battery: BatteryConfig::default(),
            temp: TempConfig::default(),
        }
    }
}

/// A module config can absorb the global refresh interval.
pub trait Refreshable: Sized {
    /// The configuration after the global interval has been filled in.
    spec fn refreshed_spec(&self, global: u32) -> Self;

    /// Fills the global interval into this module's settings.
    fn fill_default_refresh(&mut self, global: u32)
        ensures
            *final(self) == old(self).refreshed_spec(global),
    ;
}

/// An interval kept when set, defaulted to the global one otherwise.
pub open spec fn or_global(secs: Option<u32>, global: u32) -> Option<u32> {
    match secs {
        Some(r) => Some(r),
        None => Some(global),
    }
}

/// Keeps an interval when set, defaulting to the global one.
pub fn fill_or_global(secs: &mut Option<u32>, global: u32)
    ensures
        *final(secs) == or_global(*old(secs), global),
{
    match secs {
        Some(_) => {},
        None => {
            *secs = Some(global);
        },
    }
}

impl Refreshable for BatteryConfig {
    open spec fn refreshed_spec(&self, global: u32) -> BatteryConfig {
        BatteryConfig { refresh_secs: or_global(self.refresh_secs, global), ..*self }
    }

    fn fill_default_refresh(&mut self, global: u32) {
        fill_or_global(&mut self.refresh_secs, global);
    }
}

impl Refreshable for ClockConfig {
    open spec fn refreshed_spec(&self, global: u32) -> ClockConfig {
        ClockConfig { refresh_secs: or_global(self.refresh_secs, global), ..*self }
    }

    fn fill_default_refresh(&mut self, global: u32) {
        fill_or_global(&mut self.refresh_secs, global);
    }
}

impl Refreshable for CpuConfig {
    /// The CPU item always polls at the global rate.
    open spec fn refreshed_spec(&self, global: u32) -> CpuConfig {
        CpuConfig { refresh_secs: Some(global) }
    }

    fn fill_default_refresh(&mut self, global: u32) {
        self.refresh_secs = Some(global);
    }
}

impl Refreshable for MemConfig {
    open spec fn refreshed_spec(&self, global: u32) -> MemConfig {
        MemConfig { refresh_secs: or_global(self.refresh_secs, global) }
    }

    fn fill_default_refresh(&mut self, global: u32) {
        fill_or_global(&mut self.refresh_secs, global);
    }
}

impl Refreshable for TempConfig {
    open spec fn refreshed_spec(&self, global: u32) -> TempConfig {
        TempConfig { refresh_secs: or_global(self.refresh_secs, global), ..*self }
    }

    fn fill_default_refresh(&mut self, global: u32) {
        fill_or_global(&mut self.refresh_secs, global);
    }
}

impl Refreshable for ModuleConfig {
    open spec fn refreshed_spec(&self, global: u32) -> ModuleConfig {
        ModuleConfig {
            battery: self.battery.refreshed_spec(global),
            clock: self.clock.refreshed_spec(global),
            cpu: self.cpu.refreshed_spec(global),
            mem: self.mem.refreshed_spec(global),
            temp: self.temp.refreshed_spec(global),
        }
    }

    fn fill_default_refresh(&mut self, global: u32) {
        self.battery.fill_default_refresh(global);
        self.clock.fill_default_refresh(global);
        self.cpu.fill_default_refresh(global);
        self.mem.fill_default_refresh(global);
        self.temp.fill_default_refresh(global);
    }
}

/// The default global refresh interval, in seconds.
pub fn default_refresh_secs() -> (r: u32)
    ensures
        r == 1,
{
    1
}

/// By default no items are enabled.
pub fn default_items() -> (r: Vec<String>)
    ensures
        r@.len() == 0,
{
    Vec::new()
}

/// The whole configuration: the enabled items in display order, the
/// global refresh interval, and the per-module settings.
pub struct Config {
    pub items: Vec<String>,
    pub refresh_secs: u32,
    pub modules: ModuleConfig,
}

impl Default for Config {
    fn default() -> (r: Config)
        ensures
            r.items@.len() == 0,
            r.refresh_secs == 1,
    {
        Config {
            items: default_items(),
            refresh_secs: default_refresh_secs(),
            modules: ModuleConfig::default(),
        }
    }
}

impl Config {
    /// Validates the loaded values and fills per-module refresh rates:
    /// a zero global interval is rejected, and every module without an
    /// interval of its own receives the global one.
    pub fn validate_and_fill(&mut self) -> (r: Result<(), SensorError>)
        ensures
            r is Ok <==> old(self).refresh_secs >= 1,
            r is Ok ==> final(self).items == old(self).items,
            r is Ok ==> final(self).refresh_secs == old(self).refresh_secs,
            r is Ok ==> final(self).modules == old(self).modules.refreshed_spec(
                old(self).refresh_secs,
            ),
            r is Err ==> *final(self) == *old(self) && r->Err_0 == SensorError::Parse,
    {
        if self.refresh_secs == 0 {
            return Err(SensorError::Parse);
        }
        let global = self.refresh_secs;
        self.modules.fill_default_refresh(global);
        Ok(())
    }
}

} // verus!
