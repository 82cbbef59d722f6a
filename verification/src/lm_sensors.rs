//! The external-command temperature backend: discovery and reading
//! over the plain chip/feature report that the unverified shell builds
//! from the command's structured output.

use vstd::prelude::*;
use vstd::relations::sorted_by;
use vstd::seq_lib::group_to_multiset_ensures;

use crate::catalog::Catalog;
use crate::error::SensorError;
use crate::temp::{names_view, selected, TempReading};
use crate::text::{lemma_str_le_total, lemma_str_le_trans, str_eq, str_le, str_le_exec};

verus! {

/// One feature of a reported chip: its name, whether it exposes an
/// input reading at all, and that reading in millidegrees when it is
/// numeric.
pub struct SensorFeature {
    pub name: String,
    pub has_input: bool,
    pub input_milli: Option<i64>,
}

/// One chip of the report, with its features in report order.
pub struct SensorChip {
    pub name: String,
    pub features: Vec<SensorFeature>,
}

/// The label under which a feature is listed and read.
pub open spec fn feature_label(chip: Seq<char>, f: SensorFeature) -> Seq<char> {
    chip + ":"@ + f.name@
}

/// Folds the features of one chip into the discovered label list.
pub open spec fn lm_features_rec(
    chip: Seq<char>,
    feats: Seq<SensorFeature>,
    acc: Seq<Seq<char>>,
) -> Seq<Seq<char>>
    decreases feats.len(),
{
    if feats.len() == 0 {
        acc
    } else if feats[0].has_input {
        lm_features_rec(chip, feats.drop_first(), acc.push(feature_label(chip, feats[0])))
    } else {
        lm_features_rec(chip, feats.drop_first(), acc)
    }
}

/// Folds whole chips into the discovered label list, in report order.
pub open spec fn lm_chips_rec(chips: Seq<SensorChip>, acc: Seq<Seq<char>>) -> Seq<Seq<char>>
    decreases chips.len(),
{
    if chips.len() == 0 {
        acc
    } else {
        lm_chips_rec(chips.drop_first(), lm_features_rec(chips[0].name@, chips[0].features@, acc))
    }
}

/// The labels that a report exposes, before sorting.
pub open spec fn lm_discovery(chips: Seq<SensorChip>) -> Seq<Seq<char>> {
    lm_chips_rec(chips, Seq::empty())
}

/// Inserting anywhere adds exactly one occurrence to the multiset.
proof fn lemma_insert_to_multiset(s: Seq<Seq<char>>, p: int, x: Seq<char>)
    requires
        0 <= p <= s.len(),
    ensures
        s.insert(p, x).to_multiset() =~= s.to_multiset().insert(x),
{
    broadcast use group_to_multiset_ensures;

    let t = s.insert(p, x);
    assert(t.remove(p) =~= s);
    assert(t[p] == x);
    assert(t.remove(p).to_multiset() =~= t.to_multiset().remove(x));
    assert(t.to_multiset().contains(x)) by {
        assert(t.contains(x));
    }
    assert(t.to_multiset() =~= t.to_multiset().remove(x).insert(x));
}

/// Sorts labels into the lexicographic order, keeping exactly the same
/// labels.
pub fn sort_labels(v: Vec<String>) -> (r: Vec<String>)
    ensures
        names_view(r@).to_multiset() == names_view(v@).to_multiset(),
        sorted_by(names_view(r@), |a: Seq<char>, b: Seq<char>| str_le(a, b)),
{
    broadcast use group_to_multiset_ensures;

    let mut out: Vec<String> = Vec::new();
    let mut i: usize = 0;
    proof {
        assert(names_view(out@) =~= Seq::<Seq<char>>::empty());
        assert(v@.subrange(0, 0) =~= Seq::<String>::empty());
        assert(names_view(v@.subrange(0, 0)) =~= Seq::<Seq<char>>::empty());
    }
    while i < v.len()
        invariant
            0 <= i <= v@.len(),
            forall|k: int, l: int|
                0 <= k < l < names_view(out@).len() ==> str_le(
                    #[trigger] names_view(out@)[k],
                    #[trigger] names_view(out@)[l],
                ),
            names_view(out@).to_multiset() == names_view(v@.subrange(0, i as int)).to_multiset(),
        decreases v@.len() - i,
    {
        broadcast use group_to_multiset_ensures;

        let x = v[i].clone();
        let ghost xv = x@;
        let ghost before = names_view(out@);
        let mut p: usize = 0;
        loop
            invariant
                0 <= p <= out@.len(),
                names_view(out@) == before,
                x@ == xv,
                forall|k: int| 0 <= k < p ==> str_le(#[trigger] before[k], xv),
            ensures
                0 <= p <= out@.len(),
                names_view(out@) == before,
                x@ == xv,
                forall|k: int| 0 <= k < p ==> str_le(#[trigger] before[k], xv),
                p < out@.len() ==> !str_le(before[p as int], xv),
            decreases out@.len() - p,
        {
            if p >= out.len() {
                break;
            }
            if !str_le_exec(out[p].as_str(), x.as_str()) {
                break;
            }
            p = p + 1;
        }
        out.insert(p, x);
        proof {
            assert(names_view(out@) =~= before.insert(p as int, xv));
            lemma_insert_to_multiset(before, p as int, xv);
            assert(v@.subrange(0, i as int + 1).drop_last() =~= v@.subrange(0, i as int));
            assert(names_view(v@.subrange(0, i as int + 1))
                =~= names_view(v@.subrange(0, i as int)).push(v@[i as int]@));
            assert(names_view(out@).to_multiset() =~= names_view(
                v@.subrange(0, i as int + 1),
            ).to_multiset());
            let now = names_view(out@);
            assert forall|m: int, n: int| 0 <= m < n < now.len() implies str_le(
                #[trigger] now[m],
                #[trigger] now[n],
            ) by {
                if p < before.len() {
                    lemma_str_le_total(before[p as int], xv);
                }
                if m < p {
                    assert(now[m] == before[m]);
                } else if m == p {
                    assert(now[m] == xv);
                } else {
                    assert(now[m] == before[m - 1]);
                }
                if n < p {
                    assert(now[n] == before[n]);
                } else if n == p {
                    assert(now[n] == xv);
                } else {
                    assert(now[n] == before[n - 1]);
                }
                if n == p {
                    assert(str_le(before[m], xv));
                } else if m == p && n > p {
                    assert(str_le(xv, before[p as int]));
                    if (p as int) < n - 1 {
                        assert(str_le(before[p as int], before[n - 1]));
                        lemma_str_le_trans(xv, before[p as int], before[n - 1]);
                    }
                } else if m < p && n > p {
                    assert(str_le(before[m], before[n - 1]));
                } else {
                    assert(str_le(now[m], now[n]));
                }
            }
        }
        i = i + 1;
    }
    proof {
        assert(v@.subrange(0, v@.len() as int) =~= v@);
        assert(sorted_by(names_view(out@), |a: Seq<char>, b: Seq<char>| str_le(a, b)));
    }
    out
}

/// Enumerates the labels of every feature of the report that exposes
/// an input reading, in the lexicographic order. An empty report is
/// not an error here: only a configured filter can fail construction.
pub fn discover_lm_labels(report: &Vec<SensorChip>) -> (r: Vec<String>)
    ensures
        names_view(r@).to_multiset() == lm_discovery(report@).to_multiset(),
        sorted_by(names_view(r@), |a: Seq<char>, b: Seq<char>| str_le(a, b)),
{
    let ghost cv = report@;
    let mut labels: Vec<String> = Vec::new();
    proof {
        assert(cv.skip(0) =~= cv);
        assert(names_view(labels@) =~= Seq::<Seq<char>>::empty());
    }
    let mut i: usize = 0;
    while i < report.len()
        invariant
            cv == report@,
            0 <= i <= cv.len(),
            lm_chips_rec(cv.skip(i as int), names_view(labels@)) == lm_discovery(cv),
        decreases cv.len() - i,
    {
        proof {
            assert(cv.skip(i as int)[0] == cv[i as int]);
            assert(cv.skip(i as int).drop_first() =~= cv.skip(i as int + 1));
        }
        let chip = &report[i];
        let ghost chip_v = cv[i as int].name@;
        let ghost fv = cv[i as int].features@;
        let mut j: usize = 0;
        proof {
            assert(fv.skip(0) =~= fv);
        }
        while j < chip.features.len()
            invariant
                cv == report@,
                0 <= i < cv.len(),
                chip == &cv[i as int],
                chip_v == cv[i as int].name@,
                fv == cv[i as int].features@,
                0 <= j <= fv.len(),
                lm_chips_rec(
                    cv.skip(i as int + 1),
                    lm_features_rec(chip_v, fv.skip(j as int), names_view(labels@)),
                ) == lm_discovery(cv),
            decreases fv.len() - j,
        {
            proof {
                assert(fv.skip(j as int)[0] == fv[j as int]);
                assert(fv.skip(j as int).drop_first() =~= fv.skip(j as int + 1));
            }
            if chip.features[j].has_input {
                let mut label = chip.name.clone();
                label.append(":");
                label.append(chip.features[j].name.as_str());
                let ghost before = names_view(labels@);
                labels.push(label);
                proof {
                    assert(names_view(labels@) =~= before.push(
                        feature_label(chip_v, fv[j as int]),
                    ));
                }
            }
            j = j + 1;
        }
        proof {
            assert(fv.skip(j as int).len() == 0);
        }
        i = i + 1;
    }
    proof {
        assert(cv.skip(i as int).len() == 0);
    }
    sort_labels(labels)
}

/// The labels among `src` that are among the configured names, in
/// order.
pub open spec fn kept_labels_rec(
    src: Seq<Seq<char>>,
    names: Seq<Seq<char>>,
    acc: Seq<Seq<char>>,
) -> Seq<Seq<char>>
    decreases src.len(),
{
    if src.len() == 0 {
        acc
    } else if selected(names, src[0]) {
        kept_labels_rec(src.drop_first(), names, acc.push(src[0]))
    } else {
        kept_labels_rec(src.drop_first(), names, acc)
    }
}

/// The filtered view of a label list.
pub open spec fn kept_labels(src: Seq<Seq<char>>, names: Seq<Seq<char>>) -> Seq<Seq<char>> {
    kept_labels_rec(src, names, Seq::empty())
}

/// Retains the labels that are among the configured names.
pub fn filter_labels(all: &Vec<String>, wanted: &Vec<String>) -> (r: Vec<String>)
    ensures
        names_view(r@) == kept_labels(names_view(all@), names_view(wanted@)),
{
    let ghost av = names_view(all@);
    let ghost names = names_view(wanted@);
    let mut out: Vec<String> = Vec::new();
    proof {
        assert(av.skip(0) =~= av);
        assert(names_view(out@) =~= Seq::<Seq<char>>::empty());
    }
    let mut i: usize = 0;
    while i < all.len()
        invariant
            av == names_view(all@),
            names == names_view(wanted@),
            0 <= i <= all@.len(),
            av.len() == all@.len(),
            kept_labels_rec(av.skip(i as int), names, names_view(out@)) == kept_labels(av, names),
        decreases all@.len() - i,
    {
        proof {
            assert(av.skip(i as int)[0] == av[i as int]);
            assert(av.skip(i as int).drop_first() =~= av.skip(i as int + 1));
        }
        if crate::temp::label_selected(wanted, all[i].as_str()) {
            let ghost before = names_view(out@);
            out.push(all[i].clone());
            proof {
                assert(names_view(out@) =~= before.push(av[i as int]));
            }
        }
        i = i + 1;
    }
    proof {
        assert(av.skip(i as int).len() == 0);
    }
    out
}

/// Copies a label list, keeping every label.
pub fn clone_labels(v: &Vec<String>) -> (r: Vec<String>)
    ensures
        names_view(r@) == names_view(v@),
{
    let mut out: Vec<String> = Vec::new();
    let mut i: usize = 0;
    while i < v.len()
        invariant
            0 <= i <= v@.len(),
            out@.len() == i,
            forall|j: int| 0 <= j < i ==> (#[trigger] out@[j])@ == v@[j]@,
        decreases v@.len() - i,
    {
        out.push(v[i].clone());
        i = i + 1;
    }
    proof {
        assert(names_view(out@) =~= names_view(v@));
    }
    out
}

/// The index of the first colon in `s`, or a negative value when there
/// is none.
pub open spec fn colon_idx(s: Seq<char>) -> int
    decreases s.len(),
{
    if s.len() == 0 {
        -1
    } else if s[0] == ':' {
        0
    } else {
        let rest = colon_idx(s.drop_first());
        if rest < 0 {
            -1
        } else {
            rest + 1
        }
    }
}

proof fn lemma_colon_idx_found(s: Seq<char>, i: int)
    requires
        0 <= i < s.len(),
        s[i] == ':',
        forall|j: int| 0 <= j < i ==> s[j] != ':',
    ensures
        colon_idx(s) == i,
    decreases i,
{
    if i > 0 {
        assert(s.drop_first()[i - 1] == s[i]);
        assert forall|j: int| 0 <= j < i - 1 implies s.drop_first()[j] != ':' by {
            assert(s.drop_first()[j] == s[j + 1]);
        }
        lemma_colon_idx_found(s.drop_first(), i - 1);
    }
}

proof fn lemma_colon_idx_none(s: Seq<char>)
    requires
        forall|j: int| 0 <= j < s.len() ==> s[j] != ':',
    ensures
        colon_idx(s) < 0,
    decreases s.len(),
{
    if s.len() > 0 {
        assert forall|j: int| 0 <= j < s.drop_first().len() implies s.drop_first()[j] != ':' by {
            assert(s.drop_first()[j] == s[j + 1]);
        }
        lemma_colon_idx_none(s.drop_first());
    }
}

/// Finds the first colon of a label.
pub fn find_colon(s: &str) -> (r: Option<usize>)
    ensures
        r is Some ==> colon_idx(s@) == r->Some_0 && r->Some_0 < s@.len(),
        r is None ==> colon_idx(s@) < 0,
{
    let n = s.unicode_len();
    let mut i: usize = 0;
    while i < n
        invariant
            n == s@.len(),
            0 <= i <= n,
            forall|j: int| 0 <= j < i ==> s@[j] != ':',
        decreases n - i,
    {
        if s.get_char(i) == ':' {
            proof {
                lemma_colon_idx_found(s@, i as int);
            }
            return Some(i);
        }
        i = i + 1;
    }
    proof {
        lemma_colon_idx_none(s@);
    }
    None
}

/// The reading that a chip gives for a feature name: the value of its
/// first feature so named, when that feature has a numeric input.
pub open spec fn feature_lookup(feats: Seq<SensorFeature>, name: Seq<char>) -> Option<int>
    decreases feats.len(),
{
    if feats.len() == 0 {
        None
    } else if feats[0].name@ == name {
        match feats[0].input_milli {
            Some(v) => Some(v as int),
            None => None,
        }
    } else {
        feature_lookup(feats.drop_first(), name)
    }
}

/// Looks a feature name up in one chip's features.
pub fn lookup_feature(feats: &Vec<SensorFeature>, name: &str) -> (r: Option<i64>)
    ensures
        feature_lookup(feats@, name@) == match r {
            Some(v) => Some(v as int),
            None => None,
        },
{
    let ghost fv = feats@;
    let mut k: usize = 0;
    proof {
        assert(fv.skip(0) =~= fv);
    }
    while k < feats.len()
        invariant
            fv == feats@,
            0 <= k <= fv.len(),
            feature_lookup(fv.skip(k as int), name@) == feature_lookup(fv, name@),
        decreases fv.len() - k,
    {
        proof {
            assert(fv.skip(k as int)[0] == fv[k as int]);
            assert(fv.skip(k as int).drop_first() =~= fv.skip(k as int + 1));
        }
        if str_eq(feats[k].name.as_str(), name) {
            return match feats[k].input_milli {
                Some(v) => Some(v),
                None => None,
            };
        }
        k = k + 1;
    }
    proof {
        assert(fv.skip(k as int).len() == 0);
    }
    None
}

/// The first chip of the report carrying `name`.
pub open spec fn chip_lookup(chips: Seq<SensorChip>, name: Seq<char>) -> Option<SensorChip>
    decreases chips.len(),
{
    if chips.len() == 0 {
        None
    } else if chips[0].name@ == name {
        Some(chips[0])
    } else {
        chip_lookup(chips.drop_first(), name)
    }
}

/// Looks a chip name up in a report.
pub fn lookup_chip<'a>(chips: &'a Vec<SensorChip>, name: &str) -> (r: Option<&'a SensorChip>)
    ensures
        match r {
            Some(c) => chip_lookup(chips@, name@) == Some(*c),
            None => chip_lookup(chips@, name@) is None,
        },
{
    let ghost cv = chips@;
    let mut k: usize = 0;
    proof {
        assert(cv.skip(0) =~= cv);
    }
    while k < chips.len()
        invariant
            cv == chips@,
            0 <= k <= cv.len(),
            chip_lookup(cv.skip(k as int), name@) == chip_lookup(cv, name@),
        decreases cv.len() - k,
    {
        proof {
            assert(cv.skip(k as int)[0] == cv[k as int]);
            assert(cv.skip(k as int).drop_first() =~= cv.skip(k as int + 1));
        }
        if str_eq(chips[k].name.as_str(), name) {
            return Some(&chips[k]);
        }
        k = k + 1;
    }
    proof {
        assert(cv.skip(k as int).len() == 0);
    }
    None
}

/// The reading a report gives for one selected label: the label names
/// a chip before its first colon and a feature after it, and the value
/// is that chip's numeric input reading for that feature.
pub open spec fn label_value(chips: Seq<SensorChip>, l: Seq<char>) -> Option<int> {
    let ci = colon_idx(l);
    if ci < 0 {
        None
    } else {
        match chip_lookup(chips, l.subrange(0, ci)) {
            None => None,
            Some(c) => feature_lookup(c.features@, l.subrange(ci + 1, l.len() as int)),
        }
    }
}

/// Reads temperatures by matching each selected label against a fresh
/// report of the external command.
pub struct LmSensorsBackend {
    pub sensors: Vec<String>,
}

impl LmSensorsBackend {
    /// Builds a backend over the shared discovery catalog, retaining
    /// only the configured sensors when a filter is set. Fails with
    /// `NotFound` when discovery has not run or the filter matches
    /// nothing.
    pub fn new(catalog: &Catalog<Vec<String>>, sensors: &Vec<String>) -> (r: Result<
        LmSensorsBackend,
        SensorError,
    >)
        ensures
            r is Ok <==> catalog.is_ready() && (sensors@.len() == 0 || kept_labels(
                names_view(catalog.entries()@),
                names_view(sensors@),
            ).len() > 0),
            r is Ok && sensors@.len() == 0 ==> names_view(r->Ok_0.sensors@) == names_view(
                catalog.entries()@,
            ),
            r is Ok && sensors@.len() > 0 ==> names_view(r->Ok_0.sensors@) == kept_labels(
                names_view(catalog.entries()@),
                names_view(sensors@),
            ),
            r is Err ==> r->Err_0 == SensorError::NotFound,
    {
        if !catalog.ready() {
            return Err(SensorError::NotFound);
        }
        let all = catalog.get();
        if sensors.len() == 0 {
            Ok(LmSensorsBackend { sensors: clone_labels(all) })
        } else {
            let list = filter_labels(all, sensors);
            if list.len() == 0 {
                proof {
                    assert(names_view(list@).len() == 0);
                }
                Err(SensorError::NotFound)
            } else {
                proof {
                    assert(names_view(list@).len() > 0);
                }
                Ok(LmSensorsBackend { sensors: list })
            }
        }
    }

    /// Reads one value per selected label from a fresh report: the
    /// chip named before each label's colon must expose the feature
    /// named after it, with a numeric input. A label the report does
    /// not answer fails the whole call: no partial list is returned.
    pub fn read_from(&self, report: &Vec<SensorChip>) -> (r: Result<
        Vec<TempReading>,
        SensorError,
    >)
        ensures
            r is Ok <==> forall|i: int|
                0 <= i < self.sensors@.len() ==> #[trigger] label_value(
                    report@,
                    names_view(self.sensors@)[i],
                ) is Some,
            r is Ok ==> r->Ok_0@.len() == self.sensors@.len(),
            r is Ok ==> forall|i: int|
                0 <= i < self.sensors@.len() ==> (#[trigger] r->Ok_0@[i]).label@ == names_view(
                    self.sensors@,
                )[i] && r->Ok_0@[i].milli_celsius as int == label_value(
                    report@,
                    names_view(self.sensors@)[i],
                )->0,
            r is Err ==> r->Err_0 == SensorError::NotFound,
            r is Err ==> exists|i: int|
                0 <= i < self.sensors@.len() && #[trigger] label_value(
                    report@,
                    names_view(self.sensors@)[i],
                ) is None,
    {
        let ghost names = names_view(self.sensors@);
        let mut out: Vec<TempReading> = Vec::new();
        let mut j: usize = 0;
        while j < self.sensors.len()
            invariant
                names == names_view(self.sensors@),
                0 <= j <= self.sensors@.len(),
                out@.len() == j,
                forall|k: int| 0 <= k < j ==> #[trigger] label_value(report@, names[k]) is Some,
                forall|k: int|
                    0 <= k < j ==> (#[trigger] out@[k]).label@ == names[k]
                        && out@[k].milli_celsius as int == label_value(report@, names[k])->0,
            decreases self.sensors@.len() - j,
        {
            let label = &self.sensors[j];
            proof {
                assert(names[j as int] == self.sensors@[j as int]@);
            }
            match find_colon(label.as_str()) {
                Some(ci) => {
                    let n = label.as_str().unicode_len();
                    let chip_name = label.as_str().substring_char(0, ci);
                    let feat_name = label.as_str().substring_char(ci + 1, n);
                    match lookup_chip(report, chip_name) {
                        Some(chip) => {
                            match lookup_feature(&chip.features, feat_name) {
                                Some(v) => {
                                    proof {
                                        assert(label_value(report@, names[j as int])
                                            == Some(v as int));
                                    }
                                    out.push(
                                        TempReading { label: label.clone(), milli_celsius: v },
                                    );
                                },
                                None => {
                                    assert(label_value(report@, names[j as int]) is None);
                                    return Err(SensorError::NotFound);
                                },
                            }
                        },
                        None => {
                            assert(label_value(report@, names[j as int]) is None);
                            return Err(SensorError::NotFound);
                        },
                    }
                },
                None => {
                    assert(label_value(report@, names[j as int]) is None);
                    return Err(SensorError::NotFound);
                },
            }
            j = j + 1;
        }
        Ok(out)
    }
}

} // verus!
