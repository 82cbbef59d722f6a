//! The thermal-zone temperature backend: discovery over a pseudo-
//! filesystem scan, filtering, and millidegree interpretation.

use vstd::prelude::*;

use crate::catalog::Catalog;
use crate::error::SensorError;
use crate::temp::{clone_sources, filter_sources, kept, names_view, read_sensor_values,
    reading_value, sources_view, SensorSource, TempReading};
use crate::text::{has_prefix, starts_with, trim_end_str, trimmed_end};

verus! {

/// One directory entry of a thermal-zone scan: the entry's name, its
/// full path, the contents of its `type` file (absent when unreadable),
/// and whether a `temp` file exists in it.
pub struct ThermalZoneEntry {
    pub name: String,
    pub dir: String,
    pub type_content: Option<String>,
    pub has_temp: bool,
}

/// Folds scan entries into discovered zones, in order. Entries not
/// named like thermal zones are skipped; an unreadable `type` file
/// fails the scan; zones without a `temp` file contribute nothing.
pub open spec fn thermal_scan(
    entries: Seq<ThermalZoneEntry>,
    acc: Seq<(Seq<char>, Seq<char>)>,
) -> Result<Seq<(Seq<char>, Seq<char>)>, SensorError>
    decreases entries.len(),
{
    if entries.len() == 0 {
        Ok(acc)
    } else {
        let e = entries[0];
        if !has_prefix(e.name@, "thermal_zone"@) {
            thermal_scan(entries.drop_first(), acc)
        } else {
            match e.type_content {
                None => Err(SensorError::Io),
                Some(t) => if e.has_temp {
                    thermal_scan(
                        entries.drop_first(),
                        acc.push((trimmed_end(t@), e.dir@ + "/temp"@)),
                    )
                } else {
                    thermal_scan(entries.drop_first(), acc)
                },
            }
        }
    }
}

/// The zones that a scan discovers.
pub open spec fn thermal_discovery(entries: Seq<ThermalZoneEntry>) -> Result<
    Seq<(Seq<char>, Seq<char>)>,
    SensorError,
> {
    thermal_scan(entries, Seq::empty())
}

/// Scans directory entries for thermal zones. Finding none at all is
/// a discovery failure.
pub fn discover_thermal_zones(entries: &Vec<ThermalZoneEntry>) -> (r: Result<
    Vec<SensorSource>,
    SensorError,
>)
    ensures
        r is Ok <==> thermal_discovery(entries@) is Ok && thermal_discovery(entries@)->Ok_0.len()
            > 0,
        r is Ok ==> sources_view(r->Ok_0@) == thermal_discovery(entries@)->Ok_0,
        r is Err ==> r->Err_0 == (if thermal_discovery(entries@) is Ok {
            SensorError::NotFound
        } else {
            thermal_discovery(entries@)->Err_0
        }),
{
    let ghost ev = entries@;
    let mut out: Vec<SensorSource> = Vec::new();
    proof {
        assert(ev.skip(0) =~= ev);
        assert(sources_view(out@) =~= Seq::<(Seq<char>, Seq<char>)>::empty());
    }
    let mut i: usize = 0;
    while i < entries.len()
        invariant
            ev == entries@,
            0 <= i <= ev.len(),
            thermal_scan(ev.skip(i as int), sources_view(out@)) == thermal_discovery(ev),
            out@.len() <= i,
        decreases ev.len() - i,
    {
        proof {
            assert(ev.skip(i as int)[0] == ev[i as int]);
            assert(ev.skip(i as int).drop_first() =~= ev.skip(i as int + 1));
        }
        if starts_with(entries[i].name.as_str(), "thermal_zone") {
            match &entries[i].type_content {
                None => {
                    return Err(SensorError::Io);
                },
                Some(t) => {
                    if entries[i].has_temp {
                        let label = trim_end_str(t.as_str()).to_owned();
                        let mut path = entries[i].dir.clone();
                        path.append("/temp");
                        let ghost before = sources_view(out@);
                        out.push(SensorSource { label, path });
                        proof {
                            assert(sources_view(out@) =~= before.push(
                                (trimmed_end(ev[i as int].type_content->0@),
                                ev[i as int].dir@ + "/temp"@),
                            ));
                        }
                    }
                },
            }
        }
        i = i + 1;
    }
    proof {
        assert(ev.skip(i as int).len() == 0);
    }
    if out.len() == 0 {
        Err(SensorError::NotFound)
    } else {
        Ok(out)
    }
}

/// Reads temperatures from the thermal zones that discovery found and
/// the configured filter retained.
pub struct ThermalZoneBackend {
    pub zones: Vec<SensorSource>,
}

impl ThermalZoneBackend {
    /// Builds a backend over the shared discovery catalog, retaining
    /// only the configured sensors when a filter is set. Fails with
    /// `NotFound` when discovery has not succeeded or the filter
    /// matches nothing.
    pub fn new(catalog: &Catalog<Vec<SensorSource>>, sensors: &Vec<String>) -> (r: Result<
        ThermalZoneBackend,
        SensorError,
    >)
        ensures
            r is Ok <==> catalog.is_ready() && (sensors@.len() == 0 || kept(
                catalog.entries()@,
                names_view(sensors@),
            ).len() > 0),
            r is Ok && sensors@.len() == 0 ==> sources_view(r->Ok_0.zones@) == sources_view(
                catalog.entries()@,
            ),
            r is Ok && sensors@.len() > 0 ==> sources_view(r->Ok_0.zones@) == kept(
                catalog.entries()@,
                names_view(sensors@),
            ),
            r is Err ==> r->Err_0 == SensorError::NotFound,
    {
        if !catalog.ready() {
            return Err(SensorError::NotFound);
        }
        let all = catalog.get();
        if sensors.len() == 0 {
            Ok(ThermalZoneBackend { zones: clone_sources(all) })
        } else {
            let zones = filter_sources(all, sensors);
            if zones.len() == 0 {
                proof {
                    assert(sources_view(zones@).len() == 0);
                }
                Err(SensorError::NotFound)
            } else {
                proof {
                    assert(sources_view(zones@).len() > 0);
                }
                Ok(ThermalZoneBackend { zones })
            }
        }
    }

    /// Interprets the raw contents of each zone's `temp` file, in zone
    /// order, trimming trailing whitespace. One bad file fails the
    /// whole reading.
    pub fn read_from(&self, raw: &Vec<Option<String>>) -> (r: Result<
        Vec<TempReading>,
        SensorError,
    >)
        requires
            raw@.len() == self.zones@.len(),
        ensures
            r is Ok <==> forall|i: int|
                0 <= i < raw@.len() ==> #[trigger] reading_value(raw@[i], false) is Ok,
            r is Ok ==> r->Ok_0@.len() == self.zones@.len(),
            r is Ok ==> forall|i: int|
                0 <= i < raw@.len() ==> (#[trigger] r->Ok_0@[i]).label@ == self.zones@[i].label@
                    && r->Ok_0@[i].milli_celsius == reading_value(raw@[i], false)->Ok_0,
            r is Err ==> exists|i: int|
                0 <= i < raw@.len() && #[trigger] reading_value(raw@[i], false) is Err
                    && r->Err_0 == reading_value(raw@[i], false)->Err_0 && forall|j: int|
                    0 <= j < i ==> reading_value(raw@[j], false) is Ok,
    {
        read_sensor_values(&self.zones, raw, false)
    }
}

} // verus!
