//! Clock alignment: turns round-trip measurements against the server clock
//! into one signed offset (milliseconds) between server time and local time.
use vstd::prelude::*;
use vstd::relations::{sorted_by, total_ordering};

use crate::protocol::SyncError;

verus! {

/// Largest magnitude (ms, about 4400 years) that a single clock sample may have.
pub const SAMPLE_LIMIT: i64 = 140737488355328;

/// Largest number of samples that one estimate is computed from.
pub const MAX_SAMPLES: usize = 1048576;

/// Number of round trips that one calibration performs.
pub const CALIBRATION_SAMPLES: usize = 15;

pub open spec fn sample_in_range(x: int) -> bool {
    -SAMPLE_LIMIT <= x <= SAMPLE_LIMIT
}

/// Samples that an estimate can be computed from: at least one, none out of range.
pub open spec fn valid_samples(s: Seq<i64>) -> bool {
    &&& 1 <= s.len() <= MAX_SAMPLES
    &&& forall|i: int| 0 <= i < s.len() ==> sample_in_range(#[trigger] s[i] as int)
}

/// One clock sample: the server's timestamp moved forward by half the round
/// trip, minus the local time at which the answer arrived.
pub open spec fn raw_sample(server_ms: int, rtt_ms: int, local_ms: int) -> int {
    server_ms + rtt_ms / 2 - local_ms
}

pub open spec fn sum_of(s: Seq<i64>) -> int
    decreases s.len(),
{
    if s.len() == 0 {
        0
    } else {
        sum_of(s.drop_last()) + s.last() as int
    }
}

/// Integer division rounding toward zero, as Rust's `/` on signed integers does.
pub open spec fn div_trunc(a: int, n: int) -> int {
    if a >= 0 {
        a / n
    } else {
        -((-a) / n)
    }
}

/// Arithmetic mean, rounded toward zero.
pub open spec fn mean_of(s: Seq<i64>) -> int {
    div_trunc(sum_of(s), s.len() as int)
}

/// Sum of the squared distances of the samples from `c`.
pub open spec fn sq_dev_sum(s: Seq<i64>, c: int) -> int
    decreases s.len(),
{
    if s.len() == 0 {
        0
    } else {
        sq_dev_sum(s.drop_last(), c) + (s.last() - c) * (s.last() - c)
    }
}

pub open spec fn is_floor_sqrt(v: int, r: int) -> bool {
    0 <= r && r * r <= v < (r + 1) * (r + 1)
}

pub open spec fn floor_sqrt(v: int) -> int {
    choose|r: int| is_floor_sqrt(v, r)
}

/// Population standard deviation, from the truncated mean, rounded down.
pub open spec fn std_dev_of(s: Seq<i64>) -> int {
    floor_sqrt(sq_dev_sum(s, mean_of(s)) / (s.len() as int))
}

pub open spec fn sample_leq() -> spec_fn(i64, i64) -> bool {
    |a: i64, b: i64| a <= b
}

/// The element in the middle of the sorted samples (the upper one of the two
/// middle elements for an even count).
pub open spec fn median_of(s: Seq<i64>) -> int {
    s.sort_by(sample_leq())[(s.len() / 2) as int] as int
}

/// Whether `x` lies no farther than `spread` from `center`.
pub open spec fn near(center: int, spread: int) -> spec_fn(i64) -> bool {
    |x: i64| x - center <= spread && center - x <= spread
}

/// The samples kept by the filter: those within one standard deviation of the median.
pub open spec fn retained_of(s: Seq<i64>) -> Seq<i64> {
    s.filter(near(median_of(s), std_dev_of(s)))
}

/// The offset estimate: the mean of the retained samples, or the mean of all
/// samples when fewer than two are retained.
pub open spec fn offset_estimate(s: Seq<i64>) -> int {
    let kept = retained_of(s);
    if kept.len() >= 2 {
        mean_of(kept)
    } else {
        mean_of(s)
    }
}

// ---------------------------------------------------------------------------
// Arithmetic facts
pub(crate) proof fn lemma_sum_bound(s: Seq<i64>)
    requires
        forall|i: int| 0 <= i < s.len() ==> sample_in_range(#[trigger] s[i] as int),
    ensures
        -(s.len() as int) * SAMPLE_LIMIT <= sum_of(s) <= (s.len() as int) * SAMPLE_LIMIT,
    decreases s.len(),
{
    if s.len() > 0 {
        let p = s.drop_last();
        assert forall|i: int| 0 <= i < p.len() implies sample_in_range(#[trigger] p[i] as int) by {
            assert(p[i] == s[i]);
        }
        lemma_sum_bound(p);
        assert(sample_in_range(s[s.len() - 1] as int));
        assert((s.len() as int) * SAMPLE_LIMIT == (p.len() as int) * SAMPLE_LIMIT
            + SAMPLE_LIMIT) by (nonlinear_arith)
            requires
                s.len() == p.len() + 1,
        ;
    }
}

pub(crate) proof fn lemma_div_trunc_bound(a: int, n: int, lim: int)
    requires
        n >= 1,
        lim >= 0,
        -n * lim <= a <= n * lim,
    ensures
        -lim <= div_trunc(a, n) <= lim,
        -n < a - n * div_trunc(a, n) < n,
{
    if a >= 0 {
        assert(a / n <= lim) by (nonlinear_arith)
            requires
                n >= 1,
                a <= n * lim,
                a >= 0,
        ;
        assert(0 <= a / n) by (nonlinear_arith)
            requires
                n >= 1,
                a >= 0,
        ;
        assert(0 <= a - n * (a / n) < n) by (nonlinear_arith)
            requires
                n >= 1,
                a >= 0,
        ;
    } else {
        let b = -a;
        assert(b <= n * lim) by (nonlinear_arith)
            requires
                -n * lim <= a,
                b == -a,
        ;
        assert(b / n <= lim) by (nonlinear_arith)
            requires
                n >= 1,
                b <= n * lim,
                b >= 0,
        ;
        assert(0 <= b / n) by (nonlinear_arith)
            requires
                n >= 1,
                b >= 0,
        ;
        assert(0 <= b - n * (b / n) < n) by (nonlinear_arith)
            requires
                n >= 1,
                b >= 0,
        ;
        assert(a - n * (-(b / n)) == -(b - n * (b / n))) by (nonlinear_arith)
            requires
                a == -b,
        ;
    }
}

/// The mean of in-range samples is in range.
pub proof fn lemma_mean_in_range(s: Seq<i64>)
    requires
        s.len() >= 1,
        forall|i: int| 0 <= i < s.len() ==> sample_in_range(#[trigger] s[i] as int),
    ensures
        sample_in_range(mean_of(s)),
{
    lemma_sum_bound(s);
    lemma_div_trunc_bound(sum_of(s), s.len() as int, SAMPLE_LIMIT as int);
}

proof fn lemma_floor_sqrt_unique(v: int, r: int)
    requires
        is_floor_sqrt(v, r),
    ensures
        floor_sqrt(v) == r,
{
    let q = floor_sqrt(v);
    assert(is_floor_sqrt(v, q));
    if q < r {
        assert((q + 1) * (q + 1) <= r * r) by (nonlinear_arith)
            requires
                0 <= q < r,
        ;
    } else if r < q {
        assert((r + 1) * (r + 1) <= q * q) by (nonlinear_arith)
            requires
                0 <= r < q,
        ;
    }
}

pub(crate) proof fn lemma_sample_leq_total()
    ensures
        total_ordering(sample_leq()),
{
}

// ---------------------------------------------------------------------------
// Executable estimator
fn sum_samples(v: &Vec<i64>) -> (r: i128)
    requires
        valid_samples(v@),
    ensures
        r == sum_of(v@),
{
    let mut total: i128 = 0;
    let mut i: usize = 0;
    while i < v.len()
        invariant
            valid_samples(v@),
            0 <= i <= v.len(),
            total == sum_of(v@.subrange(0, i as int)),
            -(i as int) * SAMPLE_LIMIT <= total <= (i as int) * SAMPLE_LIMIT,
        decreases v.len() - i,
    {
        proof {
            assert(v@.subrange(0, i + 1).drop_last() =~= v@.subrange(0, i as int));
            assert(sample_in_range(v@[i as int] as int));
            assert((i + 1) * SAMPLE_LIMIT == i * SAMPLE_LIMIT + SAMPLE_LIMIT) by (nonlinear_arith);
            assert(i * SAMPLE_LIMIT <= MAX_SAMPLES * SAMPLE_LIMIT) by (nonlinear_arith)
                requires
                    i <= MAX_SAMPLES,
            ;
        }
        total = total + v[i] as i128;
        i += 1;
    }
    assert(v@.subrange(0, v.len() as int) =~= v@);
    total
}

fn div_toward_zero(a: i128, n: usize) -> (r: i128)
    requires
        n >= 1,
        -0x4000_0000_0000_0000_0000_0000_0000_0000 <= a <= 0x4000_0000_0000_0000_0000_0000_0000_0000,
    ensures
        r == div_trunc(a as int, n as int),
{
    if a >= 0 {
        let q = (a as u128) / (n as u128);
        assert(q <= a) by (nonlinear_arith)
            requires
                q == (a as int) / (n as int),
                n >= 1,
                a >= 0,
        ;
        q as i128
    } else {
        let b = (-a) as u128;
        let q = b / (n as u128);
        assert(q <= b) by (nonlinear_arith)
            requires
                q == (b as int) / (n as int),
                n >= 1,
        ;
        -(q as i128)
    }
}

fn sq_dev_samples(v: &Vec<i64>, c: i128) -> (r: i128)
    requires
        valid_samples(v@),
        sample_in_range(c as int),
    ensures
        r == sq_dev_sum(v@, c as int),
        0 <= r <= (v@.len() as int) * (4 * SAMPLE_LIMIT * SAMPLE_LIMIT),
{
    let ghost bound: int = 4 * SAMPLE_LIMIT * SAMPLE_LIMIT;
    let mut total: i128 = 0;
    let mut i: usize = 0;
    while i < v.len()
        invariant
            valid_samples(v@),
            sample_in_range(c as int),
            bound == 4 * SAMPLE_LIMIT * SAMPLE_LIMIT,
            0 <= i <= v.len(),
            total == sq_dev_sum(v@.subrange(0, i as int), c as int),
            0 <= total <= (i as int) * bound,
        decreases v.len() - i,
    {
        let d = v[i] as i128 - c;
        proof {
            assert(v@.subrange(0, i + 1).drop_last() =~= v@.subrange(0, i as int));
            assert(sample_in_range(v@[i as int] as int));
            assert(0 <= d * d <= bound) by (nonlinear_arith)
                requires
                    -2 * SAMPLE_LIMIT <= d <= 2 * SAMPLE_LIMIT,
                    bound == 4 * SAMPLE_LIMIT * SAMPLE_LIMIT,
            ;
            assert((i + 1) * bound == i * bound + bound) by (nonlinear_arith);
            assert(i * bound <= MAX_SAMPLES * bound) by (nonlinear_arith)
                requires
                    i <= MAX_SAMPLES,
                    bound >= 0,
            ;
        }
        total = total + d * d;
        i += 1;
    }
    assert(v@.subrange(0, v.len() as int) =~= v@);
    total
}

/// Largest `r` with `r * r <= v`.
fn floor_sqrt_u128(v: u128) -> (r: u128)
    requires
        v < 0x100_0000_0000_0000_0000_0000_0000_0000,
    ensures
        is_floor_sqrt(v as int, r as int),
{
    let mut lo: u128 = 0;
    let mut hi: u128 = 0x1000_0000_0000_0000;
    assert(v < hi * hi) by (nonlinear_arith)
        requires
            hi == 0x1000_0000_0000_0000,
            v < 0x100_0000_0000_0000_0000_0000_0000_0000,
    ;
    while hi - lo > 1
        invariant
            lo < hi <= 0x1000_0000_0000_0000,
            lo * lo <= v < hi * hi,
        decreases hi - lo,
    {
        let mid = lo + (hi - lo) / 2;
        assert(mid * mid <= mid * 0x1000_0000_0000_0000) by (nonlinear_arith)
            requires
                mid < 0x1000_0000_0000_0000,
        ;
        if mid * mid <= v {
            lo = mid;
        } else {
            hi = mid;
        }
    }
    lo
}

/// The samples in ascending order.
fn sorted_samples(v: &Vec<i64>) -> (r: Vec<i64>)
    ensures
        sorted_by(r@, sample_leq()),
        r@.to_multiset() == v@.to_multiset(),
{
    let mut out: Vec<i64> = Vec::new();
    let mut i: usize = 0;
    assert(out@ =~= v@.subrange(0, 0));
    while i < v.len()
        invariant
            0 <= i <= v.len(),
            sorted_by(out@, sample_leq()),
            out@.to_multiset() == v@.subrange(0, i as int).to_multiset(),
        decreases v.len() - i,
    {
        let x = v[i];
        let mut pos: usize = 0;
        while pos < out.len() && out[pos] <= x
            invariant
                0 <= pos <= out.len(),
                forall|j: int| 0 <= j < pos ==> out@[j] <= x,
            decreases out.len() - pos,
        {
            pos += 1;
        }
        let ghost before = out@;
        out.insert(pos, x);
        proof {
            assert forall|a: int, b: int| 0 <= a < b < out@.len() implies #[trigger] sample_leq()(
                out@[a],
                out@[b],
            ) by {
                if b < pos {
                    assert(sample_leq()(before[a], before[b]));
                } else if b == pos {
                    assert(before[a] <= x);
                } else if a < pos {
                    assert(sample_leq()(before[a], before[b - 1]));
                } else if a == pos {
                    assert(pos < before.len());
                    assert(before[pos as int] > x);
                    if pos < b - 1 {
                        assert(sample_leq()(before[pos as int], before[b - 1]));
                    }
                } else {
                    assert(sample_leq()(before[a - 1], before[b - 1]));
                }
            }
            assert(v@.subrange(0, i + 1) =~= v@.subrange(0, i as int).push(x));
            vstd::seq_lib::to_multiset_insert(before, pos as int, x);
            vstd::seq_lib::to_multiset_build(v@.subrange(0, i as int), x);
            assert(v@.subrange(0, i as int).push(x).to_multiset() == v@.subrange(
                0,
                i as int,
            ).to_multiset().insert(x));
        }
        i += 1;
    }
    assert(v@.subrange(0, v.len() as int) =~= v@);
    out
}

/// Combines clock samples into one offset: the samples farther than one
/// population standard deviation from their median are dropped and the rest
/// are averaged; when fewer than two remain, all samples are averaged.
pub fn estimate_offset(samples: &Vec<i64>) -> (r: i64)
    requires
        valid_samples(samples@),
    ensures
        r == offset_estimate(samples@),
        sample_in_range(r as int),
{
    let n = samples.len();
    let total = sum_samples(samples);
    proof {
        lemma_sum_bound(samples@);
        lemma_mean_in_range(samples@);
        assert(n * SAMPLE_LIMIT <= MAX_SAMPLES * SAMPLE_LIMIT) by (nonlinear_arith)
            requires
                n <= MAX_SAMPLES,
        ;
    }
    let average = div_toward_zero(total, n);
    let spread_sq = sq_dev_samples(samples, average);
    proof {
        let bound: int = 4 * SAMPLE_LIMIT * SAMPLE_LIMIT;
        assert(n * bound <= MAX_SAMPLES * bound) by (nonlinear_arith)
            requires
                n <= MAX_SAMPLES,
                bound >= 0,
        ;
        assert(MAX_SAMPLES * bound == 0x10_0000_0000_0000_0000_0000_0000_0000);
        assert(spread_sq <= (n as int) * bound);
        assert(spread_sq <= 0x10_0000_0000_0000_0000_0000_0000_0000);
    }
    let variance = (spread_sq as u128) / (n as u128);
    assert(variance <= spread_sq) by (nonlinear_arith)
        requires
            variance == (spread_sq as int) / (n as int),
            n >= 1,
            spread_sq >= 0,
    ;
    assert(variance < 0x100_0000_0000_0000_0000_0000_0000_0000);
    let spread = floor_sqrt_u128(variance);
    proof {
        lemma_floor_sqrt_unique(variance as int, spread as int);
        assert(spread <= spread * spread) by (nonlinear_arith);
    }
    let sorted = sorted_samples(samples);
    proof {
        lemma_sample_leq_total();
        vstd::seq_lib::to_multiset_len(sorted@);
        vstd::seq_lib::to_multiset_len(samples@);
        samples@.lemma_sort_by_ensures(sample_leq());
        vstd::seq_lib::lemma_sorted_unique(
            sorted@,
            samples@.sort_by(sample_leq()),
            sample_leq(),
        );
    }
    let median = sorted[n / 2];
    let ghost keep = near(median as int, spread as int);
    assert(keep == near(median_of(samples@), std_dev_of(samples@)));
    let mut kept_sum: i128 = 0;
    let mut kept: usize = 0;
    let mut i: usize = 0;
    while i < n
        invariant
            valid_samples(samples@),
            n == samples@.len(),
            0 <= i <= n,
            keep == near(median as int, spread as int),
            spread <= 0x100_0000_0000_0000_0000_0000_0000_0000,
            kept == samples@.subrange(0, i as int).filter(keep).len(),
            kept_sum == sum_of(samples@.subrange(0, i as int).filter(keep)),
            kept <= i,
            -(kept as int) * SAMPLE_LIMIT <= kept_sum <= (kept as int) * SAMPLE_LIMIT,
        decreases n - i,
    {
        let x = samples[i];
        proof {
            assert(samples@.subrange(0, i + 1) =~= samples@.subrange(0, i as int).push(x));
            samples@.subrange(0, i as int).lemma_filter_push(x, keep);
            assert(sample_in_range(samples@[i as int] as int));
            assert((kept + 1) * SAMPLE_LIMIT == kept * SAMPLE_LIMIT + SAMPLE_LIMIT)
                by (nonlinear_arith);
            assert(kept * SAMPLE_LIMIT <= MAX_SAMPLES * SAMPLE_LIMIT) by (nonlinear_arith)
                requires
                    kept <= MAX_SAMPLES,
            ;
        }
        let d = x as i128 - median as i128;
        if d <= spread as i128 && -d <= spread as i128 {
            proof {
                let sub = samples@.subrange(0, i as int).filter(keep);
                assert(sub.push(x).drop_last() =~= sub);
            }
            kept_sum = kept_sum + x as i128;
            kept = kept + 1;
        }
        i += 1;
    }
    assert(samples@.subrange(0, n as int) =~= samples@);
    if kept >= 2 {
        proof {
            lemma_div_trunc_bound(kept_sum as int, kept as int, SAMPLE_LIMIT as int);
        }
        div_toward_zero(kept_sum, kept) as i64
    } else {
        average as i64
    }
}

// ---------------------------------------------------------------------------
// Calibration
/// Computes one clock sample from the server timestamp, the measured round
/// trip and the local time at which the answer arrived; `None` when the
/// sample is out of range, which only a malformed answer can cause.
pub fn clock_sample(server_ms: u64, rtt_ms: u64, local_ms: u64) -> (r: Option<i64>)
    ensures
        r == if sample_in_range(raw_sample(server_ms as int, rtt_ms as int, local_ms as int)) {
            Some(raw_sample(server_ms as int, rtt_ms as int, local_ms as int) as i64)
        } else {
            None::<i64>
        },
{
    let raw: i128 = server_ms as i128 + (rtt_ms / 2) as i128 - local_ms as i128;
    if -(SAMPLE_LIMIT as i128) <= raw && raw <= SAMPLE_LIMIT as i128 {
        Some(raw as i64)
    } else {
        None
    }
}

/// What a calibration does after a sample was recorded.
#[derive(Clone, Copy, Debug, PartialEq, Eq, Structural)]
pub enum CalibrationStep {
    /// Ask for another sample.
    Continue,
    /// Calibration finished with this offset (ms).
    Done(i64),
}

/// Collects clock samples during a calibration and holds the current offset.
#[derive(Debug)]
pub struct ClockAligner {
    pub samples: Vec<i64>,
    pub collecting: bool,
    pub offset: i64,
}

impl ClockAligner {
    pub open spec fn wf(&self) -> bool {
        &&& self.samples.len() < CALIBRATION_SAMPLES
        &&& forall|i: int|
            0 <= i < self.samples.len() ==> sample_in_range(#[trigger] self.samples@[i] as int)
        &&& sample_in_range(self.offset as int)
        &&& !self.collecting ==> self.samples.len() == 0
    }

    /// How recording the answer `(server_ms, rtt_ms, local_ms)` takes the
    /// aligner from `self` to `fin` with result `r`.
    pub open spec fn records_sample(
        self,
        fin: ClockAligner,
        server_ms: u64,
        rtt_ms: u64,
        local_ms: u64,
        r: Result<CalibrationStep, SyncError>,
    ) -> bool {
        let raw = raw_sample(server_ms as int, rtt_ms as int, local_ms as int);
        if !self.collecting || !sample_in_range(raw) {
            &&& r == Err::<CalibrationStep, SyncError>(SyncError::ClockSyncProtocolViolation)
            &&& !fin.collecting
            &&& fin.offset == self.offset
        } else if self.samples@.len() + 1 < CALIBRATION_SAMPLES {
            &&& r == Ok::<CalibrationStep, SyncError>(CalibrationStep::Continue)
            &&& fin.collecting
            &&& fin.samples@ == self.samples@.push(raw as i64)
            &&& fin.offset == self.offset
        } else {
            let all = self.samples@.push(raw as i64);
            &&& r == Ok::<CalibrationStep, SyncError>(
                CalibrationStep::Done(offset_estimate(all) as i64),
            )
            &&& !fin.collecting
            &&& fin.offset == offset_estimate(all)
        }
    }

    /// An aligner with offset zero that is not calibrating.
    pub fn new() -> (r: Self)
        ensures
            r.wf(),
            r.offset == 0,
            !r.collecting,
    {
        ClockAligner { samples: Vec::new(), collecting: false, offset: 0 }
    }

    /// Starts a calibration, dropping the samples of any unfinished one.
    pub fn begin(&mut self)
        requires
            old(self).wf(),
        ensures
            final(self).wf(),
            final(self).collecting,
            final(self).samples@.len() == 0,
            final(self).offset == old(self).offset,
    {
        self.samples = Vec::new();
        self.collecting = true;
    }

    /// Ends the calibration in progress without changing the offset.
    pub fn abort(&mut self)
        requires
            old(self).wf(),
        ensures
            final(self).wf(),
            !final(self).collecting,
            final(self).offset == old(self).offset,
    {
        self.samples = Vec::new();
        self.collecting = false;
    }

    /// Records the answer to one clock request. A sample that arrives while
    /// no calibration runs, or one out of range, violates the protocol and
    /// ends the calibration; the last sample of a calibration sets the offset.
    pub fn on_sample(&mut self, server_ms: u64, rtt_ms: u64, local_ms: u64) -> (r: Result<
        CalibrationStep,
        SyncError,
    >)
        requires
            old(self).wf(),
        ensures
            final(self).wf(),
            old(self).records_sample(*final(self), server_ms, rtt_ms, local_ms, r),
    {
        if !self.collecting {
            return Err(SyncError::ClockSyncProtocolViolation);
        }
        match clock_sample(server_ms, rtt_ms, local_ms) {
            None => {
                self.abort();
                Err(SyncError::ClockSyncProtocolViolation)
            },
            Some(x) => {
                self.samples.push(x);
                if self.samples.len() < CALIBRATION_SAMPLES {
                    Ok(CalibrationStep::Continue)
                } else {
                    let offset = estimate_offset(&self.samples);
                    self.offset = offset;
                    self.samples = Vec::new();
                    self.collecting = false;
                    Ok(CalibrationStep::Done(offset))
                }
            },
        }
    }
}

} // verus!
