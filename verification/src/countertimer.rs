//! Counting and averaging utilities for the actors: a stopwatch, a plain
//! averager, a byte-rate averager, a rate-change watcher and the silence
//! state machine.
//!
//! None of these reads a clock itself: every method that depends on time
//! takes the current time in milliseconds, so the logic is a pure function
//! of its inputs.

use vstd::prelude::*;
use vstd::math::abs;
use crate::PrcFmt;
use crate::ProcessingState;
use crate::fixed::FIXED_ONE;
use crate::fixed::sat64;
use crate::fixed::div_trunc;
use crate::fixed::q_idiv;
use crate::fixed::q_pow10;
use crate::fixed::fpow10;
use crate::fixed::idiv;

verus! {

/// Clamp a mathematical integer into the `u64` range.
pub open spec fn sat_u64(x: int) -> int {
    if x > u64::MAX as int {
        u64::MAX as int
    } else if x < 0 {
        0
    } else {
        x
    }
}

/// A restartable stopwatch over an externally supplied millisecond clock.
pub struct Stopwatch {
    pub start_ms: u64,
}

impl Stopwatch {
    pub fn new(now_ms: u64) -> (r: Self)
        ensures
            r.start_ms == now_ms,
    {
        Stopwatch { start_ms: now_ms }
    }

    pub fn restart(&mut self, now_ms: u64)
        ensures
            final(self).start_ms == now_ms,
    {
        self.start_ms = now_ms;
    }

    /// Whether more than `value` milliseconds have passed since the start.
    pub fn larger_than_millis(&self, now_ms: u64, value: u64) -> (r: bool)
        requires
            now_ms >= self.start_ms,
        ensures
            r <==> now_ms - self.start_ms > value,
    {
        now_ms - self.start_ms > value
    }
}

/// Averages a stream of values exactly: it keeps their sum and count.
pub struct Averager {
    sum: i128,
    count: u64,
}

impl Averager {
    pub closed spec fn sum(&self) -> int {
        self.sum as int
    }

    pub closed spec fn count(&self) -> int {
        self.count as int
    }

    /// The sum stays within `count` values of `i64` magnitude, so it never
    /// overflows its accumulator.
    pub closed spec fn wf(&self) -> bool {
        &&& abs(self.sum as int) <= self.count * 9223372036854775808int
        &&& self.count < 0x4000_0000_0000_0000u64
    }

    pub fn new() -> (r: Self)
        ensures
            r.wf(),
            r.sum() == 0,
            r.count() == 0,
    {
        Averager { sum: 0, count: 0 }
    }

    pub fn restart(&mut self)
        ensures
            final(self).wf(),
            final(self).sum() == 0,
            final(self).count() == 0,
    {
        self.sum = 0;
        self.count = 0;
    }

    pub fn add_value(&mut self, value: i64)
        requires
            old(self).wf(),
            old(self).count() < 0x4000_0000_0000_0000 - 1,
        ensures
            final(self).wf(),
            final(self).sum() == old(self).sum() + value,
            final(self).count() == old(self).count() + 1,
    {
        proof {
            assert((self.count + 1) * 9223372036854775808int == self.count
                * 9223372036854775808int + 9223372036854775808int) by (nonlinear_arith);
        }
        self.sum = self.sum + value as i128;
        self.count = self.count + 1;
    }

    /// The average so far, truncated toward zero; `None` before the first
    /// value.
    pub fn get_average(&self) -> (r: Option<i64>)
        requires
            self.wf(),
        ensures
            self.count() >= 0,
            self.count() == 0 ==> r is None,
            self.count() > 0 ==> r == Some(sat64(div_trunc(self.sum(), self.count())) as i64),
    {
        if self.count == 0 {
            return None;
        }
        let neg = self.sum < 0;
        let mag: u128 = if neg {
            (-self.sum) as u128
        } else {
            self.sum as u128
        };
        let q: u128 = mag / (self.count as u128);
        proof {
            assert(abs(self.sum as int) == mag as int);
        }
        if neg {
            if q >= 9223372036854775808u128 {
                Some(i64::MIN)
            } else {
                Some(-(q as i64))
            }
        } else {
            if q > i64::MAX as u128 {
                Some(i64::MAX)
            } else {
                Some(q as i64)
            }
        }
    }
}

/// Averages a byte count over wall-clock time, for rate measurement.
pub struct TimeAverage {
    pub sum: u64,
    pub start_ms: u64,
}

impl TimeAverage {
    pub fn new(now_ms: u64) -> (r: Self)
        ensures
            r.sum == 0,
            r.start_ms == now_ms,
    {
        TimeAverage { sum: 0, start_ms: now_ms }
    }

    pub fn restart(&mut self, now_ms: u64)
        ensures
            final(self).sum == 0,
            final(self).start_ms == now_ms,
    {
        self.sum = 0;
        self.start_ms = now_ms;
    }

    pub fn add_value(&mut self, value: usize)
        ensures
            final(self).sum as int == sat_u64(old(self).sum + value),
            final(self).start_ms == old(self).start_ms,
    {
        self.sum = self.sum.saturating_add(value as u64);
    }

    /// Whether the averaging window is longer than `value` milliseconds.
    pub fn larger_than_millis(&self, now_ms: u64, value: u64) -> (r: bool)
        requires
            now_ms >= self.start_ms,
        ensures
            r <==> now_ms - self.start_ms > value,
    {
        now_ms - self.start_ms > value
    }

    /// The average rate of the window in bytes per second.
    pub fn get_average(&self, now_ms: u64) -> (r: u64)
        requires
            now_ms > self.start_ms,
        ensures
            r as int == sat_u64(1000 * (self.sum as int) / (now_ms - self.start_ms)),
    {
        let elapsed: u64 = now_ms - self.start_ms;
        let scaled: u128 = 1000u128 * (self.sum as u128);
        let per_sec: u128 = scaled / (elapsed as u128);
        if per_sec > u64::MAX as u128 {
            u64::MAX
        } else {
            per_sec as u64
        }
    }
}

/// The measured sample rate for a byte rate: bytes per second divided by
/// the frame size in bytes.
pub fn measured_rate(bytes_per_sec: u64, channels: usize, bytes_per_sample: usize) -> (r: usize)
    requires
        channels >= 1,
        bytes_per_sample >= 1,
        channels * bytes_per_sample <= usize::MAX,
    ensures
        ({
            let q = (bytes_per_sec as int) / ((channels as int) * (bytes_per_sample as int));
            r as int == if q > usize::MAX as int {
                usize::MAX as int
            } else {
                q
            }
        }),
{
    proof {
        assert((channels as int) * (bytes_per_sample as int) >= 1) by (nonlinear_arith)
            requires
                channels as int >= 1,
                bytes_per_sample as int >= 1,
        ;
    }
    let frame_bytes: u64 = (channels * bytes_per_sample) as u64;
    let rate: u64 = bytes_per_sec / frame_bytes;
    if rate > usize::MAX as u64 {
        usize::MAX
    } else {
        rate as usize
    }
}

/// Whether `value` deviates from `baseline` by more than the Q30 ratio
/// `threshold`.
pub open spec fn deviates(baseline: int, threshold: int, value: int) -> bool {
    abs(value - baseline) * (FIXED_ONE as int) > baseline * threshold
}

/// Watches a stream of measured rates for a sustained deviation from a
/// fixed baseline: it reports a change only after `threshold_count`
/// consecutive samples outside the tolerance band.
pub struct ValueWatcher {
    pub baseline: u64,
    pub threshold: PrcFmt,
    pub threshold_count: u32,
    pub count: u32,
}

impl ValueWatcher {
    pub open spec fn wf(&self) -> bool {
        &&& self.threshold >= 0
        &&& self.threshold_count >= 1
        &&& self.count <= self.threshold_count
    }

    pub fn new(baseline: usize, threshold: PrcFmt, threshold_count: u32) -> (r: Self)
        requires
            threshold >= 0,
            threshold_count >= 1,
            baseline <= u64::MAX,
        ensures
            r.wf(),
            r.baseline == baseline as u64,
            r.threshold == threshold,
            r.threshold_count == threshold_count,
            r.count == 0,
    {
        ValueWatcher { baseline: baseline as u64, threshold, threshold_count, count: 0 }
    }

    /// Feed one measured value; true when the deviation has lasted for the
    /// configured number of samples.
    pub fn check_value(&mut self, value: usize) -> (r: bool)
        requires
            old(self).wf(),
        ensures
            final(self).wf(),
            final(self).baseline == old(self).baseline,
            final(self).threshold == old(self).threshold,
            final(self).threshold_count == old(self).threshold_count,
            !deviates(old(self).baseline as int, old(self).threshold as int, value as int)
                ==> final(self).count == 0 && r == false,
            deviates(old(self).baseline as int, old(self).threshold as int, value as int) ==> {
                &&& final(self).count as int == vstd::math::min(
                    old(self).count as int + 1,
                    old(self).threshold_count as int,
                )
                &&& (r <==> final(self).count == final(self).threshold_count)
            },
    {
        let diff: u64 = if value as u64 >= self.baseline {
            value as u64 - self.baseline
        } else {
            self.baseline - (value as u64)
        };
        proof {
            assert((diff as int) * (FIXED_ONE as int) <= 18446744073709551615int * 1073741824int)
                by (nonlinear_arith)
                requires
                    0 <= diff as int <= 18446744073709551615int,
                    FIXED_ONE == 1073741824,
            ;
            assert((self.baseline as int) * (self.threshold as int) <= 18446744073709551615int
                * 9223372036854775807int) by (nonlinear_arith)
                requires
                    0 <= self.baseline as int <= 18446744073709551615int,
                    0 <= self.threshold as int <= 9223372036854775807int,
            ;
        }
        let left: u128 = (diff as u128) * (FIXED_ONE as u128);
        let right: u128 = (self.baseline as u128) * (self.threshold as u128);
        if left > right {
            if self.count < self.threshold_count {
                self.count = self.count + 1;
            }
            self.count == self.threshold_count
        } else {
            self.count = 0;
            false
        }
    }
}

/// What the silence counter decides for one chunk: the new run length of
/// silent chunks, and the processing state to move to.
pub open spec fn silence_step(
    threshold_linear: int,
    limit: int,
    count: int,
    value_range: int,
) -> (int, ProcessingState) {
    if value_range > threshold_linear {
        (0, ProcessingState::Running)
    } else {
        let c = if count < limit {
            count + 1
        } else {
            count
        };
        if c >= limit {
            (c, ProcessingState::Paused)
        } else {
            (c, ProcessingState::Running)
        }
    }
}

/// The silent-chunk run length after `n` silent chunks in a row (each with
/// a range at most the threshold), starting from `count`.
pub open spec fn silent_run_count(threshold_linear: int, limit: int, count: int, n: nat) -> int
    decreases n,
{
    if n == 0 {
        count
    } else {
        silence_step(
            threshold_linear,
            limit,
            silent_run_count(threshold_linear, limit, count, (n - 1) as nat),
            threshold_linear,
        ).0
    }
}

/// The state after the last of `n` silent chunks in a row, starting from a
/// cleared counter.
pub open spec fn silent_run_state(threshold_linear: int, limit: int, n: nat) -> ProcessingState
    recommends
        n >= 1,
{
    silence_step(
        threshold_linear,
        limit,
        silent_run_count(threshold_linear, limit, 0, (n - 1) as nat),
        threshold_linear,
    ).1
}

/// A silent run from a cleared counter counts its chunks, up to the limit.
pub proof fn lemma_silent_run_counts(threshold_linear: int, limit: int, n: nat)
    requires
        limit >= 0,
    ensures
        silent_run_count(threshold_linear, limit, 0, n) == vstd::math::min(n as int, limit),
    decreases n,
{
    if n > 0 {
        lemma_silent_run_counts(threshold_linear, limit, (n - 1) as nat);
    }
}

/// Silence below the threshold pauses the pipeline exactly when it has
/// lasted the configured number of chunks: earlier silent chunks leave it
/// running.
pub proof fn lemma_silence_pauses_after_timeout(threshold_linear: int, limit: int, n: nat)
    requires
        limit >= 1,
        n >= 1,
    ensures
        n >= limit ==> silent_run_state(threshold_linear, limit, n) == ProcessingState::Paused,
        n < limit ==> silent_run_state(threshold_linear, limit, n) == ProcessingState::Running,
{
    lemma_silent_run_counts(threshold_linear, limit, (n - 1) as nat);
}

/// One chunk above the threshold returns the state to `Running` at once,
/// whatever the counter held.
pub proof fn lemma_silence_resumes_immediately(
    threshold_linear: int,
    limit: int,
    count: int,
    value_range: int,
)
    requires
        value_range > threshold_linear,
    ensures
        silence_step(threshold_linear, limit, count, value_range) == (
            0int,
            ProcessingState::Running,
        ),
{
}

/// Chunk-granularity silence detector.  A chunk whose signal range stays at or
/// below the linear threshold counts toward the timeout; one above it
/// returns the state to `Running` at once.
pub struct SilenceCounter {
    pub threshold_linear: PrcFmt,
    pub limit: u64,
    pub count: u64,
}

impl SilenceCounter {
    pub open spec fn wf(&self) -> bool {
        self.count <= self.limit
    }

    /// Build the detector from a threshold in dB (Q30), a timeout in
    /// milliseconds, and the chunk cadence: the timeout becomes a whole
    /// number of chunks, the threshold the linear signal range
    /// `10^(dB/20)`.
    pub fn new(
        silence_threshold_db: PrcFmt,
        silence_timeout_ms: u64,
        samplerate: usize,
        chunksize: usize,
    ) -> (r: Self)
        requires
            abs(silence_threshold_db as int) <= 160 * (FIXED_ONE as int),
            chunksize >= 1,
        ensures
            r.wf(),
            r.count == 0,
            r.threshold_linear as int == q_pow10(q_idiv(silence_threshold_db as int, 20)),
            r.limit as int == sat_u64(
                (silence_timeout_ms as int) * (samplerate as int) / (1000 * (chunksize as int)),
            ),
    {
        proof {
            vstd::arithmetic::div_mod::lemma_div_is_ordered(
                abs(silence_threshold_db as int) as int,
                160 * (FIXED_ONE as int),
                20,
            );
            assert(160 * (FIXED_ONE as int) == (8 * (FIXED_ONE as int)) * 20);
            vstd::arithmetic::div_mod::lemma_div_by_multiple(8 * (FIXED_ONE as int), 20);
            assert(abs(q_idiv(silence_threshold_db as int, 20)) <= abs(
                silence_threshold_db as int,
            ) / 20);
        }
        let threshold_linear = fpow10(idiv(silence_threshold_db, 20));
        proof {
            assert((silence_timeout_ms as int) * (samplerate as int) <= 18446744073709551615int
                * 18446744073709551615int) by (nonlinear_arith)
                requires
                    0 <= silence_timeout_ms as int <= 18446744073709551615int,
                    0 <= samplerate as int <= 18446744073709551615int,
            ;
        }
        let num: u128 = (silence_timeout_ms as u128) * (samplerate as u128);
        let den: u128 = 1000u128 * (chunksize as u128);
        let q: u128 = num / den;
        let limit: u64 = if q > u64::MAX as u128 {
            u64::MAX
        } else {
            q as u64
        };
        SilenceCounter { threshold_linear, limit, count: 0 }
    }

    /// Feed the signal range of one chunk and take the next state.
    pub fn update(&mut self, value_range: PrcFmt) -> (state: ProcessingState)
        requires
            old(self).wf(),
        ensures
            final(self).wf(),
            final(self).threshold_linear == old(self).threshold_linear,
            final(self).limit == old(self).limit,
            (final(self).count as int, state) == silence_step(
                old(self).threshold_linear as int,
                old(self).limit as int,
                old(self).count as int,
                value_range as int,
            ),
    {
        if value_range > self.threshold_linear {
            self.count = 0;
            ProcessingState::Running
        } else {
            if self.count < self.limit {
                self.count = self.count + 1;
            }
            if self.count >= self.limit {
                ProcessingState::Paused
            } else {
                ProcessingState::Running
            }
        }
    }
}

} // verus!
