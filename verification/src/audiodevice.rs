//! The unit of audio exchanged between the actors: a chunk of multichannel
//! Q30 fixed-point samples, with its bookkeeping and per-channel statistics.

use vstd::prelude::*;
use crate::PrcFmt;
use crate::fixed::q_abs;
use crate::fixed::q_mul;
use crate::fixed::q_sqrt;
use crate::fixed::fabs;
use crate::fixed::fmul;
use crate::fixed::fsqrt;

verus! {

/// The device states the actors base decisions on: running, freshly
/// prepared, after an underrun or overrun, or anything else.
#[derive(Clone, Copy, Debug, PartialEq, Eq, Structural)]
pub enum DeviceState {
    Running,
    Prepared,
    XRun,
    Other,
}

/// A block of multichannel audio.  Only the first `valid_frames` frames of
/// each waveform carry real data; the rest are undefined padding.
pub struct AudioChunk {
    pub frames: usize,
    pub valid_frames: usize,
    pub maxval: PrcFmt,
    pub minval: PrcFmt,
    pub waveforms: Vec<Vec<PrcFmt>>,
}

impl AudioChunk {
    /// The chunk invariant: the valid prefix fits in every waveform.
    pub open spec fn wf(&self) -> bool {
        &&& self.valid_frames <= self.frames
        &&& forall|ch: int|
            0 <= ch < self.waveforms@.len() ==> #[trigger] self.waveforms@[ch]@.len()
                >= self.valid_frames
    }

    pub fn new(
        waveforms: Vec<Vec<PrcFmt>>,
        maxval: PrcFmt,
        minval: PrcFmt,
        frames: usize,
        valid_frames: usize,
    ) -> (r: Self)
        requires
            valid_frames <= frames,
            forall|ch: int| 0 <= ch < waveforms@.len() ==> #[trigger] waveforms@[ch]@.len() >= valid_frames,
        ensures
            r.wf(),
            r.waveforms == waveforms,
            r.maxval == maxval,
            r.minval == minval,
            r.frames == frames,
            r.valid_frames == valid_frames,
    {
        AudioChunk { frames, valid_frames, maxval, minval, waveforms }
    }

    /// Per-channel statistics over the valid prefix of the chunk.
    pub fn get_stats(&self) -> (r: ChunkStats)
        requires
            self.wf(),
        ensures
            r.rms@.len() == self.waveforms@.len(),
            r.peak@.len() == self.waveforms@.len(),
            forall|ch: int|
                0 <= ch < self.waveforms@.len() ==> #[trigger] r.peak@[ch] as int == peak_of(
                    self.waveforms@[ch]@,
                    self.valid_frames as int,
                ),
            forall|ch: int|
                0 <= ch < self.waveforms@.len() ==> #[trigger] r.rms@[ch] as int == rms_of(
                    self.waveforms@[ch]@,
                    self.valid_frames as int,
                ),
    {
        let mut rms: Vec<PrcFmt> = Vec::new();
        let mut peak: Vec<PrcFmt> = Vec::new();
        let mut ch: usize = 0;
        while ch < self.waveforms.len()
            invariant
                self.wf(),
                ch <= self.waveforms@.len(),
                rms@.len() == ch,
                peak@.len() == ch,
                forall|c: int|
                    0 <= c < ch ==> #[trigger] peak@[c] as int == peak_of(
                        self.waveforms@[c]@,
                        self.valid_frames as int,
                    ),
                forall|c: int|
                    0 <= c < ch ==> #[trigger] rms@[c] as int == rms_of(
                        self.waveforms@[c]@,
                        self.valid_frames as int,
                    ),
            decreases self.waveforms@.len() - ch,
        {
            let wave = &self.waveforms[ch];
            peak.push(channel_peak(wave, self.valid_frames));
            rms.push(channel_rms(wave, self.valid_frames));
            ch = ch + 1;
        }
        ChunkStats { rms, peak }
    }
}

/// Per-channel linear RMS and peak values of one chunk, in Q30.
#[derive(Clone, Debug)]
pub struct ChunkStats {
    pub rms: Vec<PrcFmt>,
    pub peak: Vec<PrcFmt>,
}

/// The decibel level of a nonnegative linear value; silence reports the
/// lowest representable level.
pub open spec fn db_of(v: int) -> int {
    if v >= 1 {
        crate::fixed::q_db(v)
    } else {
        i64::MIN as int
    }
}

fn db_vector(values: &Vec<PrcFmt>) -> (r: Vec<PrcFmt>)
    requires
        forall|j: int| 0 <= j < values@.len() ==> #[trigger] values@[j] >= 0,
    ensures
        r@.len() == values@.len(),
        forall|j: int| 0 <= j < values@.len() ==> #[trigger] r@[j] as int == db_of(values@[j] as int),
{
    let mut out: Vec<PrcFmt> = Vec::new();
    let mut i: usize = 0;
    while i < values.len()
        invariant
            i <= values@.len(),
            out@.len() == i,
            forall|j: int| 0 <= j < values@.len() ==> #[trigger] values@[j] >= 0,
            forall|j: int| 0 <= j < i ==> #[trigger] out@[j] as int == db_of(values@[j] as int),
        decreases values@.len() - i,
    {
        let v = values[i];
        if v >= 1 {
            out.push(crate::fixed::fdb(v));
        } else {
            out.push(i64::MIN);
        }
        i = i + 1;
    }
    out
}

impl ChunkStats {
    /// The per-channel RMS levels in decibel.
    pub fn rms_db(&self) -> (r: Vec<PrcFmt>)
        requires
            forall|j: int| 0 <= j < self.rms@.len() ==> #[trigger] self.rms@[j] >= 0,
        ensures
            r@.len() == self.rms@.len(),
            forall|j: int|
                0 <= j < self.rms@.len() ==> #[trigger] r@[j] as int == db_of(self.rms@[j] as int),
    {
        db_vector(&self.rms)
    }

    /// The per-channel peak levels in decibel.
    pub fn peak_db(&self) -> (r: Vec<PrcFmt>)
        requires
            forall|j: int| 0 <= j < self.peak@.len() ==> #[trigger] self.peak@[j] >= 0,
        ensures
            r@.len() == self.peak@.len(),
            forall|j: int|
                0 <= j < self.peak@.len() ==> #[trigger] r@[j] as int == db_of(self.peak@[j] as int),
    {
        db_vector(&self.peak)
    }
}

/// The largest sample magnitude among the first `n` entries.
pub open spec fn peak_of(xs: Seq<i64>, n: int) -> int
    recommends
        0 <= n <= xs.len(),
    decreases n,
{
    if n <= 0 {
        0
    } else {
        let prev = peak_of(xs, n - 1);
        let m = q_abs(xs[n - 1] as int);
        if m > prev {
            m
        } else {
            prev
        }
    }
}

/// The sum of squared samples (each square saturated, as computed) over the
/// first `n` entries.
pub open spec fn sum_squares(xs: Seq<i64>, n: int) -> int
    recommends
        0 <= n <= xs.len(),
    decreases n,
{
    if n <= 0 {
        0
    } else {
        sum_squares(xs, n - 1) + q_mul(xs[n - 1] as int, xs[n - 1] as int)
    }
}

/// The RMS value of the first `n` entries: the fixed-point square root of
/// the mean square (zero for an empty prefix).
pub open spec fn rms_of(xs: Seq<i64>, n: int) -> int
    recommends
        0 <= n <= xs.len(),
{
    if n <= 0 {
        0
    } else {
        q_sqrt(sum_squares(xs, n) / n)
    }
}

/// A saturated square is nonnegative and at most `i64::MAX`.
proof fn lemma_square_bounds(a: int)
    ensures
        0 <= q_mul(a, a) <= i64::MAX as int,
{
    assert(a * a >= 0) by (nonlinear_arith);
}

fn channel_peak(wave: &Vec<PrcFmt>, valid: usize) -> (r: PrcFmt)
    requires
        valid <= wave@.len(),
    ensures
        r as int == peak_of(wave@, valid as int),
{
    let mut peak: i64 = 0;
    let mut i: usize = 0;
    while i < valid
        invariant
            i <= valid <= wave@.len(),
            peak as int == peak_of(wave@, i as int),
        decreases valid - i,
    {
        let m = fabs(wave[i]);
        if m > peak {
            peak = m;
        }
        i = i + 1;
    }
    peak
}

fn channel_rms(wave: &Vec<PrcFmt>, valid: usize) -> (r: PrcFmt)
    requires
        valid <= wave@.len(),
    ensures
        r as int == rms_of(wave@, valid as int),
{
    if valid == 0 {
        return 0;
    }
    let mut acc: i128 = 0;
    let mut i: usize = 0;
    while i < valid
        invariant
            i <= valid <= wave@.len(),
            acc as int == sum_squares(wave@, i as int),
            0 <= acc as int <= (i as int) * (i64::MAX as int),
        decreases valid - i,
    {
        let x = wave[i];
        let sq = fmul(x, x);
        proof {
            lemma_square_bounds(x as int);
            assert((i as int) * (i64::MAX as int) + (i64::MAX as int) == (i + 1) * (
            i64::MAX as int)) by (nonlinear_arith);
            assert((i + 1) * (i64::MAX as int) <= 18446744073709551616int * (i64::MAX as int))
                by (nonlinear_arith)
                requires
                    0 <= i + 1 <= 18446744073709551616int,
            ;
        }
        acc = acc + sq as i128;
        i = i + 1;
    }
    let mean: u128 = (acc as u128) / (valid as u128);
    proof {
        vstd::arithmetic::div_mod::lemma_div_is_ordered(
            acc as int,
            (valid as int) * (i64::MAX as int),
            valid as int,
        );
        vstd::arithmetic::div_mod::lemma_div_multiples_vanish(i64::MAX as int, valid as int);
        assert((valid as int) * (i64::MAX as int) == (i64::MAX as int) * (valid as int))
            by (nonlinear_arith);
    }
    let rms = fsqrt(mean as i64);
    rms
}

} // verus!
