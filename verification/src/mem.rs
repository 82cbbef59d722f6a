//! Memory accounting: parsing a key-value memory-info blob into total
//! and available kilobytes, and deriving a usage percentage.

use vstd::prelude::*;

use crate::error::SensorError;
use crate::text::{has_prefix, lines_of, numeral_token, numeral_val, parse_u64, split_lines,
    starts_with, tokens, tokens_of};

verus! {

/// Total versus available memory, in kilobytes.
#[derive(Debug, Clone, Copy, PartialEq, Eq, Structural)]
pub struct MemInfo {
    pub total_kb: u64,
    pub available_kb: u64,
}

/// What one line contributes to one recognized key.
#[derive(Debug, Clone, Copy, PartialEq, Eq, Structural)]
pub enum FieldOutcome {
    /// The line is not about this key.
    Absent,
    /// The key matched but no value token follows.
    NoValue,
    /// The key matched and its value parsed.
    Value(u64),
    /// The key matched but its value is not a `u64` numeral.
    Malformed,
}

/// The contribution of `line` to the key named by `prefix`.
pub open spec fn field_outcome(line: Seq<char>, prefix: Seq<char>) -> FieldOutcome {
    if !has_prefix(line, prefix) {
        FieldOutcome::Absent
    } else {
        let toks = tokens_of(line.subrange(prefix.len() as int, line.len() as int));
        if toks.len() == 0 {
            FieldOutcome::NoValue
        } else if numeral_token(toks[0]) {
            FieldOutcome::Value(numeral_val(toks[0]) as u64)
        } else {
            FieldOutcome::Malformed
        }
    }
}

/// Checks `line` against one `Key:` prefix and parses the value token
/// that follows it.
pub fn probe_field(line: &str, prefix: &str) -> (r: FieldOutcome)
    ensures
        r == field_outcome(line@, prefix@),
{
    if !starts_with(line, prefix) {
        return FieldOutcome::Absent;
    }
    let plen = prefix.unicode_len();
    let n = line.unicode_len();
    let rest = line.substring_char(plen, n);
    let toks = tokens(rest);
    if toks.len() == 0 {
        proof {
            assert(toks@.map_values(|t: String| t@).len() == 0);
        }
        return FieldOutcome::NoValue;
    }
    proof {
        assert(tokens_of(rest@)[0] == toks@.map_values(|t: String| t@)[0]);
    }
    match parse_u64(toks[0].as_str()) {
        Some(v) => FieldOutcome::Value(v),
        None => FieldOutcome::Malformed,
    }
}

/// The running state of a memory-info scan: the value of each
/// recognized key, if one has been read so far.
#[derive(Debug, Clone, Copy, PartialEq, Eq, Structural)]
pub struct MemScan {
    pub total: Option<u64>,
    pub available: Option<u64>,
    pub free: Option<u64>,
    pub buffers: Option<u64>,
    pub cached: Option<u64>,
}

/// The scan state before any line has been read.
pub open spec fn scan_start() -> MemScan {
    MemScan { total: None, available: None, free: None, buffers: None, cached: None }
}

/// Folds one field outcome into the scan state, `upd` naming the slot.
pub open spec fn apply_outcome(
    st: MemScan,
    o: FieldOutcome,
    upd: spec_fn(MemScan, u64) -> MemScan,
) -> Option<Result<MemScan, SensorError>> {
    match o {
        FieldOutcome::Absent => None,
        FieldOutcome::NoValue => Some(Ok(st)),
        FieldOutcome::Value(v) => Some(Ok(upd(st, v))),
        FieldOutcome::Malformed => Some(Err(SensorError::Parse)),
    }
}

/// Folds one line into the scan state. A malformed value for a
/// recognized key fails the scan; all other lines are skipped.
pub open spec fn scan_line(st: MemScan, line: Seq<char>) -> Result<MemScan, SensorError> {
    if let Some(r) = apply_outcome(
        st,
        field_outcome(line, "MemTotal:"@),
        |s: MemScan, v: u64| MemScan { total: Some(v), ..s },
    ) {
        r
    } else if let Some(r) = apply_outcome(
        st,
        field_outcome(line, "MemAvailable:"@),
        |s: MemScan, v: u64| MemScan { available: Some(v), ..s },
    ) {
        r
    } else if let Some(r) = apply_outcome(
        st,
        field_outcome(line, "MemFree:"@),
        |s: MemScan, v: u64| MemScan { free: Some(v), ..s },
    ) {
        r
    } else if let Some(r) = apply_outcome(
        st,
        field_outcome(line, "Buffers:"@),
        |s: MemScan, v: u64| MemScan { buffers: Some(v), ..s },
    ) {
        r
    } else if let Some(r) = apply_outcome(
        st,
        field_outcome(line, "Cached:"@),
        |s: MemScan, v: u64| MemScan { cached: Some(v), ..s },
    ) {
        r
    } else {
        Ok(st)
    }
}

/// Folds every line into the scan state, in order, stopping only on a
/// malformed line. Scanning the whole blob means a direct
/// `MemAvailable` value is found wherever it stands, so the result
/// never depends on line order.
pub open spec fn scan_lines(st: MemScan, lines: Seq<Seq<char>>) -> Result<
    MemScan,
    SensorError,
>
    decreases lines.len(),
{
    if lines.len() == 0 {
        Ok(st)
    } else {
        match scan_line(st, lines[0]) {
            Ok(st2) => scan_lines(st2, lines.drop_first()),
            Err(e) => Err(e),
        }
    }
}

/// Derives the parsed record from a finished scan: the total must be
/// present, and the available amount is either direct or the sum of the
/// free, buffer and cache amounts.
pub open spec fn finalize(st: MemScan) -> Result<MemInfo, SensorError> {
    match st.total {
        None => Err(SensorError::Parse),
        Some(t) => match st.available {
            Some(a) => Ok(MemInfo { total_kb: t, available_kb: a }),
            None => match (st.free, st.buffers, st.cached) {
                (Some(f), Some(b), Some(c)) => if f + b + c <= u64::MAX {
                    Ok(MemInfo { total_kb: t, available_kb: (f + b + c) as u64 })
                } else {
                    Err(SensorError::Parse)
                },
                _ => Err(SensorError::Parse),
            },
        },
    }
}

/// The two derivation paths agree: a scan that read the available
/// amount directly and one that must derive it from the free, buffer
/// and cache amounts finish in the same record whenever the amounts
/// agree.
pub proof fn lemma_derivation_paths_agree(direct: MemScan, derived: MemScan)
    requires
        direct.total == derived.total,
        direct.total is Some,
        direct.available is Some,
        derived.available is None,
        derived.free is Some,
        derived.buffers is Some,
        derived.cached is Some,
        direct.available->0 == derived.free->0 + derived.buffers->0 + derived.cached->0,
    ensures
        finalize(direct) == finalize(derived),
{
}

/// Law: the direct derivation path. A blob of one `MemTotal` line and
/// one `MemAvailable` line parses to exactly those two amounts.
pub proof fn lemma_direct_available_path(l1: Seq<char>, l2: Seq<char>, t: u64, a: u64)
    requires
        field_outcome(l1, "MemTotal:"@) == FieldOutcome::Value(t),
        field_outcome(l2, "MemTotal:"@) == FieldOutcome::Absent,
        field_outcome(l2, "MemAvailable:"@) == FieldOutcome::Value(a),
    ensures
        scan_lines(scan_start(), seq![l1, l2]) == Ok::<MemScan, SensorError>(
            MemScan { total: Some(t), available: Some(a), free: None, buffers: None, cached: None },
        ),
        match scan_lines(scan_start(), seq![l1, l2]) {
            Ok(st) => finalize(st) == Ok::<MemInfo, SensorError>(
                MemInfo { total_kb: t, available_kb: a },
            ),
            Err(_) => false,
        },
{
    let lines = seq![l1, l2];
    assert(lines.drop_first() =~= seq![l2]);
    assert(seq![l2].drop_first() =~= Seq::<Seq<char>>::empty());
    let st1 = MemScan { total: Some(t), ..scan_start() };
    assert(scan_line(scan_start(), l1) == Ok::<MemScan, SensorError>(st1));
    let st2 = MemScan { available: Some(a), ..st1 };
    assert(scan_line(st1, l2) == Ok::<MemScan, SensorError>(st2));
    assert(scan_lines(st2, Seq::empty()) == Ok::<MemScan, SensorError>(st2));
    assert(scan_lines(st1, seq![l2]) == Ok::<MemScan, SensorError>(st2));
    assert(scan_lines(scan_start(), lines) == Ok::<MemScan, SensorError>(st2));
}

/// Law: the fallback derivation path. A blob of one `MemTotal` line
/// and one line each for `MemFree`, `Buffers` and `Cached` parses to
/// the total and the sum of the three amounts, whenever that sum fits.
pub proof fn lemma_fallback_available_path(
    l1: Seq<char>,
    l2: Seq<char>,
    l3: Seq<char>,
    l4: Seq<char>,
    t: u64,
    f: u64,
    b: u64,
    c: u64,
)
    requires
        field_outcome(l1, "MemTotal:"@) == FieldOutcome::Value(t),
        field_outcome(l2, "MemTotal:"@) == FieldOutcome::Absent,
        field_outcome(l2, "MemAvailable:"@) == FieldOutcome::Absent,
        field_outcome(l2, "MemFree:"@) == FieldOutcome::Value(f),
        field_outcome(l3, "MemTotal:"@) == FieldOutcome::Absent,
        field_outcome(l3, "MemAvailable:"@) == FieldOutcome::Absent,
        field_outcome(l3, "MemFree:"@) == FieldOutcome::Absent,
        field_outcome(l3, "Buffers:"@) == FieldOutcome::Value(b),
        field_outcome(l4, "MemTotal:"@) == FieldOutcome::Absent,
        field_outcome(l4, "MemAvailable:"@) == FieldOutcome::Absent,
        field_outcome(l4, "MemFree:"@) == FieldOutcome::Absent,
        field_outcome(l4, "Buffers:"@) == FieldOutcome::Absent,
        field_outcome(l4, "Cached:"@) == FieldOutcome::Value(c),
        f + b + c <= u64::MAX,
    ensures
        scan_lines(scan_start(), seq![l1, l2, l3, l4]) == Ok::<MemScan, SensorError>(
            MemScan {
                total: Some(t),
                available: None,
                free: Some(f),
                buffers: Some(b),
                cached: Some(c),
            },
        ),
        match scan_lines(scan_start(), seq![l1, l2, l3, l4]) {
            Ok(st) => finalize(st) == Ok::<MemInfo, SensorError>(
                MemInfo { total_kb: t, available_kb: (f + b + c) as u64 },
            ),
            Err(_) => false,
        },
{
    let lines = seq![l1, l2, l3, l4];
    assert(lines.drop_first() =~= seq![l2, l3, l4]);
    assert(seq![l2, l3, l4].drop_first() =~= seq![l3, l4]);
    assert(seq![l3, l4].drop_first() =~= seq![l4]);
    assert(seq![l4].drop_first() =~= Seq::<Seq<char>>::empty());
    let st1 = MemScan { total: Some(t), ..scan_start() };
    assert(scan_line(scan_start(), l1) == Ok::<MemScan, SensorError>(st1));
    let st2 = MemScan { free: Some(f), ..st1 };
    assert(scan_line(st1, l2) == Ok::<MemScan, SensorError>(st2));
    let st3 = MemScan { buffers: Some(b), ..st2 };
    assert(scan_line(st2, l3) == Ok::<MemScan, SensorError>(st3));
    let st4 = MemScan { cached: Some(c), ..st3 };
    assert(scan_line(st3, l4) == Ok::<MemScan, SensorError>(st4));
    assert(scan_lines(st4, Seq::empty()) == Ok::<MemScan, SensorError>(st4));
    assert(scan_lines(st3, seq![l4]) == Ok::<MemScan, SensorError>(st4));
    assert(scan_lines(st2, seq![l3, l4]) == Ok::<MemScan, SensorError>(st4));
    assert(scan_lines(st1, seq![l2, l3, l4]) == Ok::<MemScan, SensorError>(st4));
    assert(scan_lines(scan_start(), lines) == Ok::<MemScan, SensorError>(st4));
}

/// The parse of a whole memory-info blob.
pub open spec fn meminfo_of(text: Seq<char>) -> Result<MemInfo, SensorError> {
    match scan_lines(scan_start(), lines_of(text)) {
        Ok(st) => finalize(st),
        Err(e) => Err(e),
    }
}

impl MemInfo {
    /// Parses the full text of a memory-info source.
    pub fn from_text(text: &str) -> (r: Result<MemInfo, SensorError>)
        ensures
            r == meminfo_of(text@),
    {
        let lines = split_lines(text);
        let ghost lv = lines_of(text@);
        let mut st = MemScan {
            total: None,
            available: None,
            free: None,
            buffers: None,
            cached: None,
        };
        let mut i: usize = 0;
        proof {
            assert(lv.skip(0) =~= lv);
        }
        while i < lines.len()
            invariant
                lv == lines_of(text@),
                lv == lines@.map_values(|t: String| t@),
                0 <= i <= lines@.len(),
                scan_lines(st, lv.skip(i as int)) == scan_lines(scan_start(), lv),
            decreases lines@.len() - i,
        {
            let line = &lines[i];
            let ghost line_v = lv[i as int];
            proof {
                assert(line_v == lines@[i as int]@);
                assert(lv.skip(i as int)[0] == line_v);
                assert(lv.skip(i as int).drop_first() =~= lv.skip(i as int + 1));
            }
            let o_total = probe_field(line.as_str(), "MemTotal:");
            let o_avail = probe_field(line.as_str(), "MemAvailable:");
            let o_free = probe_field(line.as_str(), "MemFree:");
            let o_buf = probe_field(line.as_str(), "Buffers:");
            let o_cache = probe_field(line.as_str(), "Cached:");
            match o_total {
                FieldOutcome::Absent => match o_avail {
                    FieldOutcome::Absent => match o_free {
                        FieldOutcome::Absent => match o_buf {
                            FieldOutcome::Absent => match o_cache {
                                FieldOutcome::Absent => {},
                                FieldOutcome::NoValue => {},
                                FieldOutcome::Value(v) => {
                                    st.cached = Some(v);
                                },
                                FieldOutcome::Malformed => {
                                    proof {
                                        assert(scan_line(st, line_v) == Err::<
                                            MemScan,
                                            SensorError,
                                        >(SensorError::Parse));
                                        assert(scan_lines(st, lv.skip(i as int)) == Err::<
                                            MemScan,
                                            SensorError,
                                        >(SensorError::Parse));
                                    }
                                    return Err(SensorError::Parse);
                                },
                            },
                            FieldOutcome::NoValue => {},
                            FieldOutcome::Value(v) => {
                                st.buffers = Some(v);
                            },
                            FieldOutcome::Malformed => {
                                proof {
                                    assert(scan_line(st, line_v) == Err::<MemScan, SensorError>(
                                        SensorError::Parse,
                                    ));
                                    assert(scan_lines(st, lv.skip(i as int)) == Err::<
                                        MemScan,
                                        SensorError,
                                    >(SensorError::Parse));
                                }
                                return Err(SensorError::Parse);
                            },
                        },
                        FieldOutcome::NoValue => {},
                        FieldOutcome::Value(v) => {
                            st.free = Some(v);
                        },
                        FieldOutcome::Malformed => {
                            proof {
                                assert(scan_line(st, line_v) == Err::<MemScan, SensorError>(
                                    SensorError::Parse,
                                ));
                                assert(scan_lines(st, lv.skip(i as int)) == Err::<
                                    MemScan,
                                    SensorError,
                                >(SensorError::Parse));
                            }
                            return Err(SensorError::Parse);
                        },
                    },
                    FieldOutcome::NoValue => {},
                    FieldOutcome::Value(v) => {
                        st.available = Some(v);
                    },
                    FieldOutcome::Malformed => {
                        proof {
                            assert(scan_line(st, line_v) == Err::<MemScan, SensorError>(
                                SensorError::Parse,
                            ));
                            assert(scan_lines(st, lv.skip(i as int)) == Err::<
                                MemScan,
                                SensorError,
                            >(SensorError::Parse));
                        }
                        return Err(SensorError::Parse);
                    },
                },
                FieldOutcome::NoValue => {},
                FieldOutcome::Value(v) => {
                    st.total = Some(v);
                },
                FieldOutcome::Malformed => {
                    proof {
                        assert(scan_line(st, line_v) == Err::<MemScan, SensorError>(
                            SensorError::Parse,
                        ));
                        assert(scan_lines(st, lv.skip(i as int)) == Err::<MemScan, SensorError>(
                            SensorError::Parse,
                        ));
                    }
                    return Err(SensorError::Parse);
                },
            }
            i = i + 1;
        }
        proof {
            assert(lv.skip(i as int).len() == 0);
            assert(scan_lines(scan_start(), lv) == Ok::<MemScan, SensorError>(st));
        }
        match st.total {
            None => Err(SensorError::Parse),
            Some(t) => match st.available {
                Some(a) => Ok(MemInfo { total_kb: t, available_kb: a }),
                None => match (st.free, st.buffers, st.cached) {
                    (Some(f), Some(b), Some(c)) => {
                        if f <= u64::MAX - b && f + b <= u64::MAX - c {
                            Ok(MemInfo { total_kb: t, available_kb: f + b + c })
                        } else {
                            Err(SensorError::Parse)
                        }
                    },
                    _ => Err(SensorError::Parse),
                },
            },
        }
    }

    /// Memory usage between zero and one hundred percent, in hundredths
    /// of a percent; zero when the total is zero.
    pub open spec fn usage_centi_spec(&self) -> int {
        let used = if self.total_kb >= self.available_kb {
            self.total_kb - self.available_kb
        } else {
            0
        };
        if self.total_kb == 0 {
            0
        } else {
            (10000 * used) / (self.total_kb as int)
        }
    }

    /// Computes the usage percentage, in hundredths of a percent.
    pub fn usage_percent(&self) -> (r: u64)
        ensures
            r == self.usage_centi_spec(),
            r <= 10000,
    {
        let used: u64 = if self.total_kb >= self.available_kb {
            self.total_kb - self.available_kb
        } else {
            0
        };
        if self.total_kb == 0 {
            0
        } else {
            let q: u128 = (10000u128 * used as u128) / (self.total_kb as u128);
            proof {
                assert((10000 * used as int) / (self.total_kb as int) <= 10000 && (10000
                    * used as int) / (self.total_kb as int) >= 0) by (nonlinear_arith)
                    requires
                        0 < self.total_kb,
                        0 <= used <= self.total_kb,
                ;
            }
            q as u64
        }
    }
}

} // verus!
