//! Temperature backends: shared reading and filtering logic.
//!
//! Each backend discovers a catalog of sensor sources once, filters it
//! by the configured sensor names, and turns raw millidegree file
//! contents into readings.

use vstd::prelude::*;

use crate::error::SensorError;
use crate::text::{parse_i64, signed_val, str_eq, trim_end_str, trim_str, trimmed, trimmed_end,
    valid_i64_numeral};

verus! {

/// Which temperature backend variant a configuration selects.
#[derive(Debug, Clone, Copy, PartialEq, Eq, Structural)]
pub enum TempBackendKind {
    ThermalZone,
    Hwmon,
    LmSensors,
}

impl Default for TempBackendKind {
    /// Thermal zones exist on most machines, so they are the default.
    fn default() -> (r: TempBackendKind)
        ensures
            r == TempBackendKind::ThermalZone,
    {
        TempBackendKind::ThermalZone
    }
}

/// One temperature reading: a sensor label and its value in
/// millidegrees Celsius. Division into fractional degrees is left to
/// the rendering layer.
pub struct TempReading {
    pub label: String,
    pub milli_celsius: i64,
}

/// One discovered sensor: its display label and the file it is read
/// from.
pub struct SensorSource {
    pub label: String,
    pub path: String,
}

/// The label and path of a source, as character sequences.
pub open spec fn source_pair(s: SensorSource) -> (Seq<char>, Seq<char>) {
    (s.label@, s.path@)
}

/// The labels and paths of a source list.
pub open spec fn sources_view(v: Seq<SensorSource>) -> Seq<(Seq<char>, Seq<char>)> {
    v.map_values(|s: SensorSource| source_pair(s))
}

/// The views of a list of names.
pub open spec fn names_view(names: Seq<String>) -> Seq<Seq<char>> {
    names.map_values(|s: String| s@)
}

/// `label` is one of the configured names.
pub open spec fn selected(names: Seq<Seq<char>>, label: Seq<char>) -> bool {
    exists|k: int| 0 <= k < names.len() && names[k] == label
}

/// Tests a label against the configured names.
pub fn label_selected(names: &Vec<String>, label: &str) -> (b: bool)
    ensures
        b == selected(names_view(names@), label@),
{
    let mut k: usize = 0;
    while k < names.len()
        invariant
            0 <= k <= names@.len(),
            forall|j: int| 0 <= j < k ==> names_view(names@)[j] != label@,
        decreases names@.len() - k,
    {
        if str_eq(names[k].as_str(), label) {
            assert(names_view(names@)[k as int] == label@);
            return true;
        }
        k = k + 1;
    }
    false
}

/// The sources whose labels are among `names`, in order.
pub open spec fn kept_rec(
    src: Seq<SensorSource>,
    names: Seq<Seq<char>>,
    acc: Seq<(Seq<char>, Seq<char>)>,
) -> Seq<(Seq<char>, Seq<char>)>
    decreases src.len(),
{
    if src.len() == 0 {
        acc
    } else if selected(names, src[0].label@) {
        kept_rec(src.drop_first(), names, acc.push(source_pair(src[0])))
    } else {
        kept_rec(src.drop_first(), names, acc)
    }
}

/// The filtered view of a source list.
pub open spec fn kept(src: Seq<SensorSource>, names: Seq<Seq<char>>) -> Seq<
    (Seq<char>, Seq<char>),
> {
    kept_rec(src, names, Seq::empty())
}

/// Retains the sources whose labels are among the configured names.
pub fn filter_sources(all: &Vec<SensorSource>, wanted: &Vec<String>) -> (r: Vec<SensorSource>)
    ensures
        sources_view(r@) == kept(all@, names_view(wanted@)),
{
    let ghost names = names_view(wanted@);
    let ghost av = all@;
    let mut out: Vec<SensorSource> = Vec::new();
    proof {
        assert(av.skip(0) =~= av);
        assert(sources_view(out@) =~= Seq::<(Seq<char>, Seq<char>)>::empty());
    }
    let mut i: usize = 0;
    while i < all.len()
        invariant
            av == all@,
            names == names_view(wanted@),
            0 <= i <= av.len(),
            kept_rec(av.skip(i as int), names, sources_view(out@)) == kept(av, names),
        decreases av.len() - i,
    {
        proof {
            assert(av.skip(i as int)[0] == av[i as int]);
            assert(av.skip(i as int).drop_first() =~= av.skip(i as int + 1));
        }
        if label_selected(wanted, all[i].label.as_str()) {
            let ghost before = sources_view(out@);
            out.push(
                SensorSource { label: all[i].label.clone(), path: all[i].path.clone() },
            );
            proof {
                assert(sources_view(out@) =~= before.push(source_pair(av[i as int])));
            }
        }
        i = i + 1;
    }
    proof {
        assert(av.skip(i as int).len() == 0);
    }
    out
}

/// Copies a source list, keeping every label and path.
pub fn clone_sources(v: &Vec<SensorSource>) -> (r: Vec<SensorSource>)
    ensures
        sources_view(r@) == sources_view(v@),
{
    let mut out: Vec<SensorSource> = Vec::new();
    let mut i: usize = 0;
    while i < v.len()
        invariant
            0 <= i <= v@.len(),
            out@.len() == i,
            forall|j: int| 0 <= j < i ==> source_pair(#[trigger] out@[j]) == source_pair(v@[j]),
        decreases v@.len() - i,
    {
        out.push(SensorSource { label: v[i].label.clone(), path: v[i].path.clone() });
        i = i + 1;
    }
    proof {
        assert(sources_view(out@) =~= sources_view(v@));
    }
    out
}

/// The value carried by one raw sensor file: the file must be readable
/// and hold a millidegree numeral after whitespace trimming. `trim_both`
/// says whether leading whitespace is trimmed as well.
pub open spec fn reading_value(raw: Option<String>, trim_both: bool) -> Result<
    int,
    SensorError,
> {
    match raw {
        None => Err(SensorError::Io),
        Some(t) => {
            let tok = if trim_both {
                trimmed(t@)
            } else {
                trimmed_end(t@)
            };
            if valid_i64_numeral(tok) {
                Ok(signed_val(tok))
            } else {
                Err(SensorError::Parse)
            }
        },
    }
}

/// Turns the raw file contents of every source into readings, in
/// order. A single unreadable or malformed file fails the whole call:
/// no partial list is returned.
pub fn read_sensor_values(
    sources: &Vec<SensorSource>,
    raw: &Vec<Option<String>>,
    trim_both: bool,
) -> (r: Result<Vec<TempReading>, SensorError>)
    requires
        raw@.len() == sources@.len(),
    ensures
        r is Ok <==> forall|i: int|
            0 <= i < raw@.len() ==> #[trigger] reading_value(raw@[i], trim_both) is Ok,
        r is Ok ==> r->Ok_0@.len() == sources@.len(),
        r is Ok ==> forall|i: int|
            0 <= i < raw@.len() ==> (#[trigger] r->Ok_0@[i]).label@ == sources@[i].label@
                && r->Ok_0@[i].milli_celsius == reading_value(raw@[i], trim_both)->Ok_0,
        r is Err ==> exists|i: int|
            0 <= i < raw@.len() && #[trigger] reading_value(raw@[i], trim_both) is Err
                && r->Err_0 == reading_value(raw@[i], trim_both)->Err_0 && forall|j: int|
                0 <= j < i ==> reading_value(raw@[j], trim_both) is Ok,
{
    let n = sources.len();
    let mut out: Vec<TempReading> = Vec::new();
    let mut i: usize = 0;
    while i < n
        invariant
            n == sources@.len(),
            raw@.len() == n,
            0 <= i <= n,
            out@.len() == i,
            forall|j: int| 0 <= j < i ==> #[trigger] reading_value(raw@[j], trim_both) is Ok,
            forall|j: int|
                0 <= j < i ==> (#[trigger] out@[j]).label@ == sources@[j].label@
                    && out@[j].milli_celsius == reading_value(raw@[j], trim_both)->Ok_0,
        decreases n - i,
    {
        match &raw[i] {
            None => {
                assert(reading_value(raw@[i as int], trim_both) is Err);
                return Err(SensorError::Io);
            },
            Some(t) => {
                let tok = if trim_both {
                    trim_str(t.as_str())
                } else {
                    trim_end_str(t.as_str())
                };
                match parse_i64(tok) {
                    Some(v) => {
                        out.push(
                            TempReading { label: sources[i].label.clone(), milli_celsius: v },
                        );
                    },
                    None => {
                        assert(reading_value(raw@[i as int], trim_both) is Err);
                        return Err(SensorError::Parse);
                    },
                }
            },
        }
        i = i + 1;
    }
    Ok(out)
}

} // verus!
