//! Battery backends: sysfs power-supply discovery and reading, and
//! selection and normalization for a bus power-management service.

use vstd::prelude::*;

use crate::catalog::Catalog;
use crate::error::SensorError;
use crate::text::{contains_seq, contains_str, numeral_token, numeral_val, parse_u64, str_eq,
    trim_end_str, trimmed_end};

verus! {

/// Which battery backend variant a configuration selects.
#[derive(Debug, Clone, Copy, PartialEq, Eq, Structural)]
pub enum BatteryBackendKind {
    Sysfs,
    Upower,
}

impl Default for BatteryBackendKind {
    /// The sysfs variant needs no bus service, so it is the default.
    fn default() -> (r: BatteryBackendKind)
        ensures
            r == BatteryBackendKind::Sysfs,
    {
        BatteryBackendKind::Sysfs
    }
}

/// A percentage clamped into the displayable range.
pub open spec fn clamp100(v: int) -> int {
    if v > 100 {
        100
    } else if v < 0 {
        0
    } else {
        v
    }
}

/// One entry of a power-supply directory scan: the device directory
/// and the contents of its `type` file, absent when unreadable.
pub struct PowerSupplyEntry {
    pub dir: String,
    pub type_content: Option<String>,
}

/// The resolved files of a discovered battery device.
pub struct BatteryPaths {
    pub capacity: String,
    pub status: String,
}

/// The device directory that a scan selects: the first entry whose
/// `type` file contains `Battery`. An unreadable `type` file before
/// that point fails the scan, and a scan with no battery finds nothing.
pub open spec fn sysfs_discovery(entries: Seq<PowerSupplyEntry>) -> Result<
    Seq<char>,
    SensorError,
>
    decreases entries.len(),
{
    if entries.len() == 0 {
        Err(SensorError::NotFound)
    } else {
        match entries[0].type_content {
            None => Err(SensorError::Io),
            Some(t) => if contains_seq(t@, "Battery"@) {
                Ok(entries[0].dir@)
            } else {
                sysfs_discovery(entries.drop_first())
            },
        }
    }
}

/// Scans power-supply entries for the first battery device and resolves
/// its capacity and status files.
pub fn discover_sysfs_battery(entries: &Vec<PowerSupplyEntry>) -> (r: Result<
    BatteryPaths,
    SensorError,
>)
    ensures
        r is Ok <==> sysfs_discovery(entries@) is Ok,
        r is Ok ==> r->Ok_0.capacity@ == sysfs_discovery(entries@)->Ok_0 + "/capacity"@,
        r is Ok ==> r->Ok_0.status@ == sysfs_discovery(entries@)->Ok_0 + "/status"@,
        r is Err ==> r->Err_0 == sysfs_discovery(entries@)->Err_0,
{
    let ghost ev = entries@;
    let mut i: usize = 0;
    proof {
        assert(ev.skip(0) =~= ev);
    }
    while i < entries.len()
        invariant
            ev == entries@,
            0 <= i <= ev.len(),
            sysfs_discovery(ev.skip(i as int)) == sysfs_discovery(ev),
        decreases ev.len() - i,
    {
        proof {
            assert(ev.skip(i as int)[0] == ev[i as int]);
            assert(ev.skip(i as int).drop_first() =~= ev.skip(i as int + 1));
        }
        match &entries[i].type_content {
            None => {
                return Err(SensorError::Io);
            },
            Some(t) => {
                if contains_str(t.as_str(), "Battery") {
                    let mut capacity = entries[i].dir.clone();
                    capacity.append("/capacity");
                    let mut status = entries[i].dir.clone();
                    status.append("/status");
                    return Ok(BatteryPaths { capacity, status });
                }
            },
        }
        i = i + 1;
    }
    proof {
        assert(ev.skip(i as int).len() == 0);
    }
    Err(SensorError::NotFound)
}

/// Reads battery state from two flat files of a power-supply device.
/// The unverified shell reads the files; this type fixes which files
/// are read and how their contents are interpreted.
pub struct SysfsBackend {
    pub capacity_path: String,
    pub status_path: String,
}

impl SysfsBackend {
    /// Uses a configured device directory directly. The caller probes
    /// whether the two required files exist; the device is used exactly
    /// when both are present.
    pub fn with_device(dir: &str, has_capacity: bool, has_status: bool) -> (r: Result<
        SysfsBackend,
        SensorError,
    >)
        ensures
            r is Ok <==> has_capacity && has_status,
            r is Ok ==> r->Ok_0.capacity_path@ == dir@ + "/capacity"@,
            r is Ok ==> r->Ok_0.status_path@ == dir@ + "/status"@,
            r is Err ==> r->Err_0 == SensorError::NotFound,
    {
        if has_capacity && has_status {
            let mut capacity = dir.to_owned();
            capacity.append("/capacity");
            let mut status = dir.to_owned();
            status.append("/status");
            Ok(SysfsBackend { capacity_path: capacity, status_path: status })
        } else {
            Err(SensorError::NotFound)
        }
    }

    /// Uses the shared discovery catalog. Fails with `NotFound` when
    /// discovery has not succeeded in this process.
    pub fn from_catalog(catalog: &Catalog<BatteryPaths>) -> (r: Result<
        SysfsBackend,
        SensorError,
    >)
        ensures
            r is Ok <==> catalog.is_ready(),
            r is Ok ==> r->Ok_0.capacity_path@ == catalog.entries().capacity@,
            r is Ok ==> r->Ok_0.status_path@ == catalog.entries().status@,
            r is Err ==> r->Err_0 == SensorError::NotFound,
    {
        if catalog.ready() {
            let paths = catalog.get();
            Ok(
                SysfsBackend {
                    capacity_path: paths.capacity.clone(),
                    status_path: paths.status.clone(),
                },
            )
        } else {
            Err(SensorError::NotFound)
        }
    }

    /// Interprets the contents of the capacity and status files: the
    /// capacity must be a `u64` numeral after trailing-whitespace
    /// removal and is clamped into `0..=100`; the status is the trimmed
    /// free text.
    pub fn interpret(capacity_text: &str, status_text: &str) -> (r: Result<
        (u8, String),
        SensorError,
    >)
        ensures
            r is Ok <==> numeral_token(trimmed_end(capacity_text@)),
            r is Ok ==> r->Ok_0.0 as int == clamp100(
                numeral_val(trimmed_end(capacity_text@)) as int,
            ),
            r is Ok ==> r->Ok_0.0 <= 100,
            r is Ok ==> r->Ok_0.1@ == trimmed_end(status_text@),
            r is Err ==> r->Err_0 == SensorError::Parse,
    {
        let cap_str = trim_end_str(capacity_text);
        match parse_u64(cap_str) {
            Some(v) => {
                let cap: u8 = if v > 100 {
                    100
                } else {
                    v as u8
                };
                let status = trim_end_str(status_text).to_owned();
                Ok((cap, status))
            },
            None => Err(SensorError::Parse),
        }
    }
}

/// The device-type code that the power-management service assigns to
/// battery devices.
pub const UPOWER_TYPE_BATTERY: u32 = 2;

/// One enumerated device of the power-management service: its object
/// path, its reported device type, and its native path where that
/// property could be read.
pub struct UpowerDeviceInfo {
    pub path: String,
    pub device_type: u32,
    pub native_path: Option<String>,
}

/// The device is battery-typed.
pub open spec fn is_battery(d: UpowerDeviceInfo) -> bool {
    d.device_type == UPOWER_TYPE_BATTERY
}

/// The device answers to the configured identifier, by object path or
/// by native path.
pub open spec fn matches_filter(d: UpowerDeviceInfo, want: Seq<char>) -> bool {
    d.path@ == want || (d.native_path is Some && d.native_path->0@ == want)
}

/// The configured identifier, if any, as a character sequence.
pub open spec fn filter_view(filter: Option<String>) -> Option<Seq<char>> {
    match filter {
        Some(w) => Some(w@),
        None => None,
    }
}

/// A battery-typed device at `i` is wanted: it matches the identifier
/// when one is configured.
pub open spec fn wanted(devices: Seq<UpowerDeviceInfo>, filter: Option<Seq<char>>, i: int) -> bool {
    &&& is_battery(devices[i])
    &&& match filter {
        Some(w) => matches_filter(devices[i], w),
        None => true,
    }
}

/// Selects the first battery-typed device that answers to the
/// configured identifier, or the first battery when none is configured.
pub fn select_upower_device(devices: &Vec<UpowerDeviceInfo>, filter: &Option<String>) -> (r:
    Result<usize, SensorError>)
    ensures
        r is Ok ==> 0 <= r->Ok_0 < devices@.len(),
        r is Ok ==> wanted(devices@, filter_view(*filter), r->Ok_0 as int),
        r is Ok ==> forall|j: int|
            0 <= j < r->Ok_0 ==> !wanted(devices@, filter_view(*filter), j),
        r is Err <==> forall|j: int|
            0 <= j < devices@.len() ==> !wanted(devices@, filter_view(*filter), j),
        r is Err ==> r->Err_0 == SensorError::NotFound,
{
    let n = devices.len();
    let mut i: usize = 0;
    while i < n
        invariant
            n == devices@.len(),
            0 <= i <= n,
            forall|j: int| 0 <= j < i ==> !wanted(devices@, filter_view(*filter), j),
        decreases n - i,
    {
        if devices[i].device_type == UPOWER_TYPE_BATTERY {
            match filter {
                None => {
                    assert(wanted(devices@, filter_view(*filter), i as int));
                    return Ok(i);
                },
                Some(w) => {
                    if str_eq(devices[i].path.as_str(), w.as_str()) {
                        assert(wanted(devices@, filter_view(*filter), i as int));
                        return Ok(i);
                    }
                    match &devices[i].native_path {
                        Some(np) => {
                            if str_eq(np.as_str(), w.as_str()) {
                                assert(wanted(devices@, filter_view(*filter), i as int));
                                return Ok(i);
                            }
                        },
                        None => {},
                    }
                },
            }
        }
        i = i + 1;
    }
    Err(SensorError::NotFound)
}

/// The status vocabulary for the numeric state code of the
/// power-management service.
pub open spec fn upower_status_label(state: u32) -> Seq<char> {
    if state == 0 {
        "Unknown"@
    } else if state == 1 {
        "Charging"@
    } else if state == 2 {
        "Discharging"@
    } else if state == 3 {
        "Empty"@
    } else if state == 4 {
        "Fully charged"@
    } else {
        "Other"@
    }
}

/// Maps the numeric state code to its status label.
pub fn battery_status_label(state: u32) -> (r: String)
    ensures
        r@ == upower_status_label(state),
{
    match state {
        0u32 => "Unknown".to_owned(),
        1u32 => "Charging".to_owned(),
        2u32 => "Discharging".to_owned(),
        3u32 => "Empty".to_owned(),
        4u32 => "Fully charged".to_owned(),
        _ => "Other".to_owned(),
    }
}

/// Normalizes one reading of the power-management service: the
/// percentage, already truncated to an integer by the caller, is
/// clamped into `0..=100`, and the state code becomes its label.
pub fn interpret_upower(percent: u64, state: u32) -> (r: (u8, String))
    ensures
        r.0 as int == clamp100(percent as int),
        r.0 <= 100,
        r.1@ == upower_status_label(state),
{
    let cap: u8 = if percent > 100 {
        100
    } else {
        percent as u8
    };
    (cap, battery_status_label(state))
}

/// Normalizes one poll of the power-management service when the
/// property queries themselves can fail: a missing percentage or state
/// means the service or device went away mid-poll.
pub fn interpret_upower_read(percent: Option<u64>, state: Option<u32>) -> (r: Result<
    (u8, String),
    SensorError,
>)
    ensures
        r is Ok <==> percent is Some && state is Some,
        r is Ok ==> r->Ok_0.0 as int == clamp100(percent->0 as int),
        r is Ok ==> r->Ok_0.0 <= 100,
        r is Ok ==> r->Ok_0.1@ == upower_status_label(state->0),
        r is Err ==> r->Err_0 == SensorError::Backend,
{
    match (percent, state) {
        (Some(p), Some(s)) => Ok(interpret_upower(p, s)),
        _ => Err(SensorError::Backend),
    }
}

/// Identifies the battery device that each later poll queries. The
/// unverified shell enumerates the service's devices once; this type
/// fixes which of them is selected.
pub struct UpowerBackend {
    pub device_path: String,
}

impl UpowerBackend {
    /// Selects the configured or default battery among the enumerated
    /// devices. Fails with `NotFound` when no battery matches.
    pub fn new(devices: &Vec<UpowerDeviceInfo>, filter: &Option<String>) -> (r: Result<
        UpowerBackend,
        SensorError,
    >)
        ensures
            r is Ok ==> exists|i: int|
                {
                    &&& 0 <= i < devices@.len()
                    &&& #[trigger] wanted(devices@, filter_view(*filter), i)
                    &&& r->Ok_0.device_path@ == devices@[i].path@
                    &&& forall|j: int| 0 <= j < i ==> !wanted(devices@, filter_view(*filter), j)
                },
            r is Err <==> forall|j: int|
                0 <= j < devices@.len() ==> !wanted(devices@, filter_view(*filter), j),
            r is Err ==> r->Err_0 == SensorError::NotFound,
    {
        match select_upower_device(devices, filter) {
            Ok(i) => Ok(UpowerBackend { device_path: devices[i].path.clone() }),
            Err(e) => Err(e),
        }
    }
}

} // verus!
