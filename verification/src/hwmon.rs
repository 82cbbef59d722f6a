//! The hardware-monitor temperature backend: chip and sensor-file
//! discovery, chip-label naming, filtering, and millidegree
//! interpretation.

use vstd::prelude::*;

use crate::catalog::Catalog;
use crate::error::SensorError;
use crate::temp::{clone_sources, filter_sources, kept, names_view, read_sensor_values,
    reading_value, sources_view, SensorSource, TempReading};
use crate::text::{ends_with, has_prefix, has_suffix, starts_with, trim_str, trimmed};

verus! {

/// One sensor file of a hardware-monitor chip: its file name, its full
/// path, and the contents of the matching label file, absent when that
/// file is missing or unreadable.
pub struct HwmonFile {
    pub file_name: String,
    pub path: String,
    pub label_content: Option<String>,
}

/// One chip directory of a hardware-monitor scan: the contents of its
/// `name` file, absent when unreadable, and its candidate sensor files.
pub struct HwmonChip {
    pub name_content: Option<String>,
    pub files: Vec<HwmonFile>,
}

/// The chip part of a sensor label: the trimmed `name` file, or the
/// generic fallback when it could not be read.
pub open spec fn chip_label(c: HwmonChip) -> Seq<char> {
    match c.name_content {
        Some(s) => trimmed(s@),
        None => "hwmon"@,
    }
}

/// A file named like a temperature input.
pub open spec fn is_temp_input(f: HwmonFile) -> bool {
    has_prefix(f.file_name@, "temp"@) && has_suffix(f.file_name@, "_input"@)
}

/// The label of one sensor file: the chip part, a dash, and the
/// trimmed label-file contents, falling back to the raw file name.
pub open spec fn sensor_label(chip: Seq<char>, f: HwmonFile) -> Seq<char> {
    chip + "-"@ + (match f.label_content {
        Some(l) => trimmed(l@),
        None => f.file_name@,
    })
}

/// Folds the sensor files of one chip into the discovered list.
pub open spec fn hwmon_files_rec(
    chip: Seq<char>,
    files: Seq<HwmonFile>,
    acc: Seq<(Seq<char>, Seq<char>)>,
) -> Seq<(Seq<char>, Seq<char>)>
    decreases files.len(),
{
    if files.len() == 0 {
        acc
    } else if is_temp_input(files[0]) {
        hwmon_files_rec(
            chip,
            files.drop_first(),
            acc.push((sensor_label(chip, files[0]), files[0].path@)),
        )
    } else {
        hwmon_files_rec(chip, files.drop_first(), acc)
    }
}

/// Folds whole chips into the discovered list, in scan order.
pub open spec fn hwmon_chips_rec(
    chips: Seq<HwmonChip>,
    acc: Seq<(Seq<char>, Seq<char>)>,
) -> Seq<(Seq<char>, Seq<char>)>
    decreases chips.len(),
{
    if chips.len() == 0 {
        acc
    } else {
        hwmon_chips_rec(
            chips.drop_first(),
            hwmon_files_rec(chip_label(chips[0]), chips[0].files@, acc),
        )
    }
}

/// The sensors that a hardware-monitor scan discovers.
pub open spec fn hwmon_discovery(chips: Seq<HwmonChip>) -> Seq<(Seq<char>, Seq<char>)> {
    hwmon_chips_rec(chips, Seq::empty())
}

/// Scans hardware-monitor chips for temperature sensors. Finding none
/// at all is a discovery failure.
pub fn discover_hwmon_sensors(chips: &Vec<HwmonChip>) -> (r: Result<
    Vec<SensorSource>,
    SensorError,
>)
    ensures
        r is Ok <==> hwmon_discovery(chips@).len() > 0,
        r is Ok ==> sources_view(r->Ok_0@) == hwmon_discovery(chips@),
        r is Err ==> r->Err_0 == SensorError::NotFound,
{
    let ghost cv = chips@;
    let mut out: Vec<SensorSource> = Vec::new();
    proof {
        assert(cv.skip(0) =~= cv);
        assert(sources_view(out@) =~= Seq::<(Seq<char>, Seq<char>)>::empty());
    }
    let mut i: usize = 0;
    while i < chips.len()
        invariant
            cv == chips@,
            0 <= i <= cv.len(),
            hwmon_chips_rec(cv.skip(i as int), sources_view(out@)) == hwmon_discovery(cv),
        decreases cv.len() - i,
    {
        proof {
            assert(cv.skip(i as int)[0] == cv[i as int]);
            assert(cv.skip(i as int).drop_first() =~= cv.skip(i as int + 1));
        }
        let chip: String = match &chips[i].name_content {
            Some(s) => trim_str(s.as_str()).to_owned(),
            None => "hwmon".to_owned(),
        };
        let ghost chip_v = chip_label(cv[i as int]);
        let files = &chips[i].files;
        let ghost fv = files@;
        let mut j: usize = 0;
        proof {
            assert(fv.skip(0) =~= fv);
        }
        while j < files.len()
            invariant
                cv == chips@,
                0 <= i < cv.len(),
                fv == cv[i as int].files@,
                files == &cv[i as int].files,
                chip@ == chip_v,
                chip_v == chip_label(cv[i as int]),
                0 <= j <= fv.len(),
                hwmon_chips_rec(
                    cv.skip(i as int + 1),
                    hwmon_files_rec(chip_v, fv.skip(j as int), sources_view(out@)),
                ) == hwmon_discovery(cv),
            decreases fv.len() - j,
        {
            proof {
                assert(fv.skip(j as int)[0] == fv[j as int]);
                assert(fv.skip(j as int).drop_first() =~= fv.skip(j as int + 1));
            }
            let f = &files[j];
            if starts_with(f.file_name.as_str(), "temp") && ends_with(
                f.file_name.as_str(),
                "_input",
            ) {
                let mut label = chip.clone();
                label.append("-");
                match &f.label_content {
                    Some(l) => {
                        label.append(trim_str(l.as_str()));
                    },
                    None => {
                        label.append(f.file_name.as_str());
                    },
                }
                let ghost before = sources_view(out@);
                out.push(SensorSource { label, path: f.path.clone() });
                proof {
                    assert(sources_view(out@) =~= before.push(
                        (sensor_label(chip_v, fv[j as int]), fv[j as int].path@),
                    ));
                }
            }
            j = j + 1;
        }
        proof {
            assert(fv.skip(j as int).len() == 0);
        }
        i = i + 1;
    }
    proof {
        assert(cv.skip(i as int).len() == 0);
    }
    if out.len() == 0 {
        Err(SensorError::NotFound)
    } else {
        Ok(out)
    }
}

/// Reads temperatures from the hardware-monitor sensors that discovery
/// found and the configured filter retained.
pub struct HwmonBackend {
    pub sensors: Vec<SensorSource>,
}

impl HwmonBackend {
    /// Builds a backend over the shared discovery catalog, retaining
    /// only the configured sensors when a filter is set. Fails with
    /// `NotFound` when discovery has not succeeded or the filter
    /// matches nothing.
    pub fn new(catalog: &Catalog<Vec<SensorSource>>, sensors: &Vec<String>) -> (r: Result<
        HwmonBackend,
        SensorError,
    >)
        ensures
            r is Ok <==> catalog.is_ready() && (sensors@.len() == 0 || kept(
                catalog.entries()@,
                names_view(sensors@),
            ).len() > 0),
            r is Ok && sensors@.len() == 0 ==> sources_view(r->Ok_0.sensors@) == sources_view(
                catalog.entries()@,
            ),
            r is Ok && sensors@.len() > 0 ==> sources_view(r->Ok_0.sensors@) == kept(
                catalog.entries()@,
                names_view(sensors@),
            ),
            r is Err ==> r->Err_0 == SensorError::NotFound,
    {
        if !catalog.ready() {
            return Err(SensorError::NotFound);
        }
        let all = catalog.get();
        if sensors.len() == 0 {
            Ok(HwmonBackend { sensors: clone_sources(all) })
        } else {
            let list = filter_sources(all, sensors);
            if list.len() == 0 {
                proof {
                    assert(sources_view(list@).len() == 0);
                }
                Err(SensorError::NotFound)
            } else {
                proof {
                    assert(sources_view(list@).len() > 0);
                }
                Ok(HwmonBackend { sensors: list })
            }
        }
    }

    /// Interprets the raw contents of each sensor file, in sensor
    /// order, trimming whitespace on both sides. One bad file fails
    /// the whole reading.
    pub fn read_from(&self, raw: &Vec<Option<String>>) -> (r: Result<
        Vec<TempReading>,
        SensorError,
    >)
        requires
            raw@.len() == self.sensors@.len(),
        ensures
            r is Ok <==> forall|i: int|
                0 <= i < raw@.len() ==> #[trigger] reading_value(raw@[i], true) is Ok,
            r is Ok ==> r->Ok_0@.len() == self.sensors@.len(),
            r is Ok ==> forall|i: int|
                0 <= i < raw@.len() ==> (#[trigger] r->Ok_0@[i]).label@ == self.sensors@[i].label@
                    && r->Ok_0@[i].milli_celsius == reading_value(raw@[i], true)->Ok_0,
            r is Err ==> exists|i: int|
                0 <= i < raw@.len() && #[trigger] reading_value(raw@[i], true) is Err
                    && r->Err_0 == reading_value(raw@[i], true)->Err_0 && forall|j: int|
                    0 <= j < i ==> reading_value(raw@[j], true) is Ok,
    {
        read_sensor_values(&self.sensors, raw, true)
    }
}

} // verus!
