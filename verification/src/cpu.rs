//! CPU accounting: parsing jiffie counter lines and computing
//! utilization deltas between polls.

use vstd::prelude::*;

use crate::error::SensorError;
use crate::text::{numeral_token, numeral_val, parse_u64, str_eq, tokens, tokens_of};

verus! {

/// Cumulative jiffie counters since boot: the idle counter and the sum
/// of all recognized counters.
#[derive(Debug, Clone, Copy, PartialEq, Eq, Structural)]
pub struct CpuSnapshot {
    pub idle: u64,
    pub total: u64,
}

/// Sum of the numeral values of `toks[from..to]`.
pub open spec fn sum_vals(toks: Seq<Seq<char>>, from: int, to: int) -> int
    decreases to - from,
{
    if from >= to {
        0
    } else {
        numeral_val(toks[from]) + sum_vals(toks, from + 1, to)
    }
}

/// The sum over a range grows by the last counter's value.
pub proof fn lemma_sum_vals_snoc(toks: Seq<Seq<char>>, from: int, to: int)
    requires
        from <= to,
    ensures
        sum_vals(toks, from, to + 1) == sum_vals(toks, from, to) + numeral_val(toks[to]),
    decreases to - from,
{
    if from < to {
        lemma_sum_vals_snoc(toks, from + 1, to);
    } else {
        assert(sum_vals(toks, to + 1, to + 1) == 0);
    }
}

/// Appending further counters never shrinks the sum.
pub proof fn lemma_sum_vals_monotonic(toks: Seq<Seq<char>>, from: int, mid: int, to: int)
    requires
        from <= mid <= to,
    ensures
        sum_vals(toks, from, mid) <= sum_vals(toks, from, to),
    decreases to - mid,
{
    if mid < to {
        lemma_sum_vals_snoc(toks, from, mid);
        lemma_sum_vals_monotonic(toks, from, mid + 1, to);
    }
}

/// The tokens form a well-formed CPU accounting line: the `cpu` tag,
/// at least four counters, every counter field a `u64` numeral, and a
/// total that itself fits in `u64`.
pub open spec fn cpu_line_ok(toks: Seq<Seq<char>>) -> bool {
    &&& toks.len() >= 5
    &&& toks[0] == "cpu"@
    &&& forall|i: int| 1 <= i < toks.len() ==> numeral_token(#[trigger] toks[i])
    &&& sum_vals(toks, 1, toks.len() as int) <= u64::MAX
}

/// Law: every well-formed accounting line is accepted. A line whose
/// first token is the `cpu` tag, followed by at least four fields that
/// all read as `u64` numerals and whose sum fits in `u64`, satisfies
/// [`cpu_line_ok`]; by the contract of [`CpuSnapshot::from_line`],
/// parsing it then succeeds and recovers the idle counter from the
/// fourth numeric field and the total as the sum of all fields.
pub proof fn lemma_valid_cpu_line_parses(toks: Seq<Seq<char>>)
    requires
        toks.len() >= 5,
        toks[0] == "cpu"@,
        forall|i: int| 1 <= i < toks.len() ==> numeral_token(#[trigger] toks[i]),
        sum_vals(toks, 1, toks.len() as int) <= u64::MAX,
    ensures
        cpu_line_ok(toks),
{
}

impl CpuSnapshot {
    /// Parses one CPU accounting line.
    ///
    /// Succeeds exactly on well-formed lines; the result recovers the
    /// idle counter from the fourth numeric field and the total as the
    /// sum of all numeric fields present.
    pub fn from_line(line: &str) -> (r: Result<CpuSnapshot, SensorError>)
        ensures
            r is Ok <==> cpu_line_ok(tokens_of(line@)),
            r is Ok ==> r->Ok_0.idle == numeral_val(tokens_of(line@)[4]),
            r is Ok ==> r->Ok_0.total == sum_vals(
                tokens_of(line@),
                1,
                tokens_of(line@).len() as int,
            ),
            r is Err ==> r->Err_0 == SensorError::Parse,
    {
        let toks = tokens(line);
        let ghost tv = tokens_of(line@);
        if toks.len() < 5 {
            return Err(SensorError::Parse);
        }
        if !str_eq(toks[0].as_str(), "cpu") {
            return Err(SensorError::Parse);
        }
        let n = toks.len();
        let mut total: u64 = 0;
        let mut idle: u64 = 0;
        let mut i: usize = 1;
        while i < n
            invariant
                tv == tokens_of(line@),
                tv == toks@.map_values(|t: String| t@),
                toks@.len() >= 5,
                n == toks@.len(),
                1 <= i <= n,
                forall|j: int| 1 <= j < i ==> numeral_token(#[trigger] tv[j]),
                total == sum_vals(tv, 1, i as int),
                idle == if i > 4 {
                    numeral_val(tv[4])
                } else {
                    0
                },
            decreases n - i,
        {
            proof {
                assert(tv[i as int] == toks@[i as int]@);
            }
            match parse_u64(toks[i].as_str()) {
                Some(v) => {
                    proof {
                        lemma_sum_vals_snoc(tv, 1, i as int);
                    }
                    if total > u64::MAX - v {
                        proof {
                            lemma_sum_vals_monotonic(tv, 1, i as int + 1, tv.len() as int);
                        }
                        return Err(SensorError::Parse);
                    }
                    total = total + v;
                    if i == 4 {
                        idle = v;
                    }
                },
                None => {
                    return Err(SensorError::Parse);
                },
            }
            i = i + 1;
        }
        Ok(CpuSnapshot { idle, total })
    }
}

/// The difference `new - old`, saturating to zero so that a counter
/// wraparound is read as no elapsed ticks.
pub open spec fn sat_delta(new: u64, old: u64) -> int {
    if new >= old {
        new - old
    } else {
        0
    }
}

/// CPU utilization between two snapshots, in hundredths of a percent.
pub open spec fn usage_centi_percent(old: CpuSnapshot, new: CpuSnapshot) -> int {
    let td = sat_delta(new.total, old.total);
    let id = sat_delta(new.idle, old.idle);
    let used = if td >= id {
        td - id
    } else {
        0
    };
    if td == 0 {
        0
    } else {
        (10000 * used) / td
    }
}

/// Identical snapshots mean no elapsed ticks, and the usage of an empty
/// interval is exactly zero.
pub proof fn lemma_usage_zero_elapsed(s: CpuSnapshot)
    ensures
        usage_centi_percent(s, s) == 0,
{
}

/// Computes the utilization between two cumulative snapshots, in
/// hundredths of a percent, saturating all subtractions.
pub fn compute_usage(old: CpuSnapshot, new: CpuSnapshot) -> (r: u64)
    ensures
        r == usage_centi_percent(old, new),
        r <= 10000,
{
    let idle_delta: u64 = if new.idle >= old.idle {
        new.idle - old.idle
    } else {
        0
    };
    let total_delta: u64 = if new.total >= old.total {
        new.total - old.total
    } else {
        0
    };
    if total_delta == 0 {
        0
    } else {
        let used: u64 = if total_delta >= idle_delta {
            total_delta - idle_delta
        } else {
            0
        };
        let q: u128 = (10000u128 * used as u128) / (total_delta as u128);
        proof {
            assert((10000 * used as int) / (total_delta as int) <= 10000 && (10000 * used as int)
                / (total_delta as int) >= 0) by (nonlinear_arith)
                requires
                    0 < total_delta,
                    0 <= used <= total_delta,
            ;
        }
        q as u64
    }
}

/// Owns the previous snapshot and turns each fresh snapshot into one
/// utilization interval.
pub struct CpuStatBackend {
    prev: CpuSnapshot,
}

impl CpuStatBackend {
    /// The snapshot that the next interval will be measured against.
    pub closed spec fn prev_snapshot(&self) -> CpuSnapshot {
        self.prev
    }

    /// Starts tracking from an initial snapshot.
    pub fn new(initial: CpuSnapshot) -> (b: CpuStatBackend)
        ensures
            b.prev_snapshot() == initial,
    {
        CpuStatBackend { prev: initial }
    }

    /// Consumes one interval: returns the utilization between the stored
    /// snapshot and `current`, and unconditionally replaces the stored
    /// snapshot with `current`.
    pub fn advance(&mut self, current: CpuSnapshot) -> (r: u64)
        ensures
            final(self).prev_snapshot() == current,
            r == usage_centi_percent(old(self).prev_snapshot(), current),
            r <= 10000,
    {
        let usage = compute_usage(self.prev, current);
        self.prev = current;
        usage
    }
}

} // verus!
