//! Accumulation of GPU telemetry samples (VRAM MiB, utilization %,
//! temperature C) over one measured interval. With no samples every summary
//! field is `None`, which reports show as missing data rather than zeros.

use vstd::prelude::*;

use crate::text::{
    find_char, first_line_end, first_line_spec, next_index_of, parse_u64_range, parse_u64_spec,
    trim_range, trim_spec,
};

verus! {

/// The first three comma-separated fields of `line`, as `str::split(',')`
/// yields them; `None` when there are fewer than three.
pub open spec fn three_fields(line: Seq<char>) -> Option<(Seq<char>, Seq<char>, Seq<char>)> {
    let e0 = next_index_of(line, 0, ',');
    let e1 = next_index_of(line, e0 + 1, ',');
    let e2 = next_index_of(line, e1 + 1, ',');
    if e0 >= line.len() || e1 >= line.len() {
        None
    } else {
        Some((line.subrange(0, e0), line.subrange(e0 + 1, e1), line.subrange(e1 + 1, e2)))
    }
}

/// The `(memory.used MiB, utilization %, temperature C)` sample in the
/// output of a CSV query without header and units: the first line's first
/// three fields, each trimmed and parsed as a `u64`.
pub open spec fn gpu_query_spec(out: Seq<char>) -> Option<(u64, u64, u64)> {
    match first_line_spec(out) {
        None => None,
        Some(line) => match three_fields(line) {
            None => None,
            Some((a, b, c)) => match (
                parse_u64_spec(trim_spec(a)),
                parse_u64_spec(trim_spec(b)),
                parse_u64_spec(trim_spec(c)),
            ) {
                (Some(x), Some(y), Some(z)) => Some((x, y, z)),
                _ => None,
            },
        },
    }
}

/// Parse one trimmed field `line[from..to]`.
fn parse_field(line: &str, from: usize, to: usize) -> (r: Option<u64>)
    requires
        from <= to <= line@.len(),
    ensures
        r == parse_u64_spec(trim_spec(line@.subrange(from as int, to as int))),
{
    let (a, b) = trim_range(line, from, to);
    parse_u64_range(line, a, b)
}

/// Parse the sample out of the query output (see [`gpu_query_spec`]).
pub fn parse_gpu_query(out: &str) -> (r: Option<(u64, u64, u64)>)
    ensures
        r == gpu_query_spec(out@),
{
    let end = match first_line_end(out) {
        Some(e) => e,
        None => {
            return None;
        },
    };
    let line = out.substring_char(0, end);
    assert(line@ =~= out@.take(end as int));
    let n = line.unicode_len();
    let e0 = find_char(line, 0, ',');
    if e0 >= n {
        return None;
    }
    let e1 = find_char(line, e0 + 1, ',');
    if e1 >= n {
        return None;
    }
    let e2 = find_char(line, e1 + 1, ',');
    let x = match parse_field(line, 0, e0) {
        Some(x) => x,
        None => {
            return None;
        },
    };
    let y = match parse_field(line, e0 + 1, e1) {
        Some(y) => y,
        None => {
            return None;
        },
    };
    let z = match parse_field(line, e1 + 1, e2) {
        Some(z) => z,
        None => {
            return None;
        },
    };
    Some((x, y, z))
}

/// The larger of `prev` (when present) and `x`.
pub open spec fn fold_max(prev: Option<u64>, x: u64) -> u64 {
    match prev {
        Some(p) => if p >= x { p } else { x },
        None => x,
    }
}

/// The smaller of `prev` (when present) and `x`.
pub open spec fn fold_min(prev: Option<u64>, x: u64) -> u64 {
    match prev {
        Some(p) => if p <= x { p } else { x },
        None => x,
    }
}

fn max_with(prev: Option<u64>, x: u64) -> (r: u64)
    ensures
        r == fold_max(prev, x),
{
    match prev {
        Some(p) => if p >= x { p } else { x },
        None => x,
    }
}

fn min_with(prev: Option<u64>, x: u64) -> (r: u64)
    ensures
        r == fold_min(prev, x),
{
    match prev {
        Some(p) => if p <= x { p } else { x },
        None => x,
    }
}

/// Accumulated samples over one measured interval.
#[derive(Debug, Clone, PartialEq, Eq, Structural)]
pub struct GpuSamples {
    pub peak_vram_mb: Option<u64>,
    pub min_vram_mb: Option<u64>,
    /// VRAM of the last sample (end of the interval).
    pub last_vram_mb: Option<u64>,
    pub util_max: Option<u64>,
    pub temp_max_c: Option<u64>,
    pub samples: u64,
    /// Sum of the utilization of the busy samples (utilization > 0); their
    /// mean is `busy_util_sum / busy_samples`.
    pub busy_util_sum: u64,
    /// Samples with utilization > 0.
    pub busy_samples: u64,
}

impl GpuSamples {
    /// The summary agrees with its sample count: all summaries are absent
    /// before the first sample and present after it, the last VRAM lies
    /// between the minimum and the peak, and busy samples are samples.
    pub open spec fn consistent(&self) -> bool {
        &&& self.busy_samples <= self.samples
        &&& self.samples == 0 ==> {
            &&& self.peak_vram_mb is None
            &&& self.min_vram_mb is None
            &&& self.last_vram_mb is None
            &&& self.util_max is None
            &&& self.temp_max_c is None
        }
        &&& self.samples > 0 ==> {
            &&& self.peak_vram_mb is Some
            &&& self.min_vram_mb is Some
            &&& self.last_vram_mb is Some
            &&& self.util_max is Some
            &&& self.temp_max_c is Some
            &&& self.min_vram_mb.unwrap() <= self.last_vram_mb.unwrap() <= self.peak_vram_mb.unwrap()
        }
    }

    /// No samples.
    pub fn empty() -> (s: Self)
        ensures
            s == (GpuSamples {
                peak_vram_mb: None,
                min_vram_mb: None,
                last_vram_mb: None,
                util_max: None,
                temp_max_c: None,
                samples: 0,
                busy_util_sum: 0,
                busy_samples: 0,
            }),
            s.consistent(),
    {
        GpuSamples {
            peak_vram_mb: None,
            min_vram_mb: None,
            last_vram_mb: None,
            util_max: None,
            temp_max_c: None,
            samples: 0,
            busy_util_sum: 0,
            busy_samples: 0,
        }
    }

    /// Fold in one sample `(mem, util, temp)`. Idle samples (utilization 0)
    /// count as samples but stay out of the busy mean.
    pub fn record(&mut self, sample: (u64, u64, u64))
        requires
            old(self).samples < u64::MAX,
            sample.1 > 0 ==> old(self).busy_samples < u64::MAX,
            sample.1 > 0 ==> old(self).busy_util_sum + sample.1 <= u64::MAX,
        ensures
            final(self).samples == old(self).samples + 1,
            final(self).peak_vram_mb == Some(fold_max(old(self).peak_vram_mb, sample.0)),
            final(self).min_vram_mb == Some(fold_min(old(self).min_vram_mb, sample.0)),
            final(self).last_vram_mb == Some(sample.0),
            final(self).util_max == Some(fold_max(old(self).util_max, sample.1)),
            final(self).temp_max_c == Some(fold_max(old(self).temp_max_c, sample.2)),
            final(self).busy_util_sum == old(self).busy_util_sum + sample.1,
            final(self).busy_samples == old(self).busy_samples + if sample.1 > 0 { 1int } else { 0 },
            old(self).consistent() ==> final(self).consistent(),
    {
        let (mem, util, temp) = sample;
        self.samples = self.samples + 1;
        self.peak_vram_mb = Some(max_with(self.peak_vram_mb, mem));
        self.min_vram_mb = Some(min_with(self.min_vram_mb, mem));
        self.last_vram_mb = Some(mem);
        self.util_max = Some(max_with(self.util_max, util));
        self.temp_max_c = Some(max_with(self.temp_max_c, temp));
        if util > 0 {
            self.busy_util_sum = self.busy_util_sum + util;
            self.busy_samples = self.busy_samples + 1;
        }
    }
}

} // verus!
