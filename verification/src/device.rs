//! Device-probing decisions: how enumeration answers from a sound card are
//! classified, how large the capture buffer must be, and the derived
//! parameters a device is opened with.  The probing calls themselves are
//! I/O and live outside; they hand this module their plain answers.

use vstd::prelude::*;
use vstd::arithmetic::power2::pow2;
use crate::SampleFormat;
use crate::fixed::half_pos;

verus! {

/// What a device supports for some parameter: a contiguous range, or a
/// discrete list.
#[derive(Debug)]
pub enum SupportedValues {
    Range(u32, u32),
    Discrete(Vec<u32>),
}

/// The standard sample rates worth probing one by one.
pub open spec fn standard_rates_seq() -> Seq<u32> {
    seq![
        5512u32,
        8000u32,
        11025u32,
        16000u32,
        22050u32,
        32000u32,
        44100u32,
        48000u32,
        64000u32,
        88200u32,
        96000u32,
        176400u32,
        192000u32,
        352800u32,
        384000u32,
        705600u32,
        768000u32,
    ]
}

/// The standard rates as a vector, for the probing loop.
pub fn standard_rates() -> (r: Vec<u32>)
    ensures
        r@ == standard_rates_seq(),
{
    let mut v: Vec<u32> = Vec::new();
    v.push(5512);
    v.push(8000);
    v.push(11025);
    v.push(16000);
    v.push(22050);
    v.push(32000);
    v.push(44100);
    v.push(48000);
    v.push(64000);
    v.push(88200);
    v.push(96000);
    v.push(176400);
    v.push(192000);
    v.push(352800);
    v.push(384000);
    v.push(705600);
    v.push(768000);
    proof {
        assert(v@ =~= standard_rates_seq());
    }
    v
}

/// The standard rates whose probe succeeded, among the first `n`.
pub open spec fn supported_standard_rates(ok: Seq<bool>, n: int) -> Seq<u32>
    recommends
        n <= ok.len(),
        ok.len() == standard_rates_seq().len(),
    decreases n,
{
    if n <= 0 {
        Seq::empty()
    } else {
        let p = supported_standard_rates(ok, n - 1);
        if ok[n - 1] {
            p.push(standard_rates_seq()[n - 1])
        } else {
            p
        }
    }
}

/// Classify a device's sample-rate support from the probe answers: a
/// single rate, a full range (when one past the minimum also works), or
/// the discrete list of standard rates that passed.
pub fn classify_rates(
    min_rate: u32,
    max_rate: u32,
    min_plus_one_supported: bool,
    standard_supported: &Vec<bool>,
) -> (r: SupportedValues)
    requires
        standard_supported@.len() == standard_rates_seq().len(),
    ensures
        min_rate == max_rate ==> (r matches SupportedValues::Discrete(v) && v@ == seq![min_rate]),
        min_rate != max_rate && min_plus_one_supported ==> r == SupportedValues::Range(
            min_rate,
            max_rate,
        ),
        min_rate != max_rate && !min_plus_one_supported ==> (r matches SupportedValues::Discrete(v)
            && v@ == supported_standard_rates(
            standard_supported@,
            standard_rates_seq().len() as int,
        )),
{
    if min_rate == max_rate {
        let mut v: Vec<u32> = Vec::new();
        v.push(min_rate);
        proof {
            assert(v@ =~= seq![min_rate]);
        }
        return SupportedValues::Discrete(v);
    }
    if min_plus_one_supported {
        return SupportedValues::Range(min_rate, max_rate);
    }
    let all = standard_rates();
    let mut rates: Vec<u32> = Vec::new();
    let mut i: usize = 0;
    while i < all.len()
        invariant
            all@ == standard_rates_seq(),
            standard_supported@.len() == standard_rates_seq().len(),
            i <= all@.len(),
            rates@ == supported_standard_rates(standard_supported@, i as int),
        decreases all@.len() - i,
    {
        if standard_supported[i] {
            rates.push(all[i]);
        }
        i = i + 1;
    }
    SupportedValues::Discrete(rates)
}

/// How many channel counts to probe upward from the minimum: the maximum,
/// capped at 32.
pub fn channel_check_limit(max_channels: u32) -> (r: u32)
    ensures
        max_channels > 32 ==> r == 32,
        max_channels <= 32 ==> r == max_channels,
{
    if max_channels > 32 {
        32
    } else {
        max_channels
    }
}

/// The sample formats worth probing, in the order they are reported.
pub open spec fn format_probe_seq() -> Seq<SampleFormat> {
    seq![
        SampleFormat::S16LE,
        SampleFormat::S24LE,
        SampleFormat::S24LE3,
        SampleFormat::S32LE,
        SampleFormat::FLOAT32LE,
        SampleFormat::FLOAT64LE,
    ]
}

/// The probed formats whose probe succeeded, among the first `n`.
pub open spec fn supported_formats(ok: Seq<bool>, n: int) -> Seq<SampleFormat>
    recommends
        n <= ok.len(),
        ok.len() == format_probe_seq().len(),
    decreases n,
{
    if n <= 0 {
        Seq::empty()
    } else {
        let p = supported_formats(ok, n - 1);
        if ok[n - 1] {
            p.push(format_probe_seq()[n - 1])
        } else {
            p
        }
    }
}

/// The formats as a vector, for the probing loop.
pub fn format_probe_order() -> (r: Vec<SampleFormat>)
    ensures
        r@ == format_probe_seq(),
{
    let mut v: Vec<SampleFormat> = Vec::new();
    v.push(SampleFormat::S16LE);
    v.push(SampleFormat::S24LE);
    v.push(SampleFormat::S24LE3);
    v.push(SampleFormat::S32LE);
    v.push(SampleFormat::FLOAT32LE);
    v.push(SampleFormat::FLOAT64LE);
    proof {
        assert(v@ =~= format_probe_seq());
    }
    v
}

/// Collect the formats whose probe succeeded.
pub fn list_formats_from_probe(format_supported: &Vec<bool>) -> (r: Vec<SampleFormat>)
    requires
        format_supported@.len() == format_probe_seq().len(),
    ensures
        r@ == supported_formats(format_supported@, format_probe_seq().len() as int),
{
    let all = format_probe_order();
    let mut formats: Vec<SampleFormat> = Vec::new();
    let mut i: usize = 0;
    while i < all.len()
        invariant
            all@ == format_probe_seq(),
            format_supported@.len() == format_probe_seq().len(),
            i <= all@.len(),
            formats@ == supported_formats(format_supported@, i as int),
        decreases all@.len() - i,
    {
        if format_supported[i] {
            formats.push(all[i]);
        }
        i = i + 1;
    }
    formats
}

/// Exactly the powers of two an unsigned 64-bit value can hold.
pub open spec fn is_power_of_two(x: int) -> bool {
    exists|k: nat| k <= 63 && x == pow2(k)
}

/// The frame count of one capture read at the highest resampling demand:
/// `1.2 * capture_rate / rate * chunksize`, rounded up.
pub open spec fn raw_buffer_frames(capture_samplerate: int, samplerate: int, chunksize: int) -> int
    recommends
        samplerate >= 1,
{
    (12 * capture_samplerate * chunksize + 10 * samplerate - 1) / (10 * samplerate)
}

/// The capture buffer size in frames: the least power of two that holds
/// `1.2 * capture_rate / rate * chunksize` frames.
pub fn capture_buffer_frames(capture_samplerate: usize, samplerate: usize, chunksize: usize) -> (r:
    usize)
    requires
        capture_samplerate >= 1,
        samplerate >= 1,
        chunksize >= 1,
        12 * capture_samplerate * chunksize <= 0x2000_0000_0000_0000,
        2 * raw_buffer_frames(capture_samplerate as int, samplerate as int, chunksize as int)
            <= usize::MAX,
    ensures
        is_power_of_two(r as int),
        r as int >= raw_buffer_frames(capture_samplerate as int, samplerate as int, chunksize as int),
        2 * raw_buffer_frames(capture_samplerate as int, samplerate as int, chunksize as int) > r as int,
{
    proof {
        assert(12 * (capture_samplerate as int) * (chunksize as int) == 12 * ((
        capture_samplerate as int) * (chunksize as int))) by (nonlinear_arith);
        assert(10 * (samplerate as int) <= 10 * 18446744073709551615int) by (nonlinear_arith)
            requires
                0 <= samplerate as int <= 18446744073709551615int,
        ;
    }
    let num: u128 = 12u128 * (capture_samplerate as u128) * (chunksize as u128);
    let den: u128 = 10u128 * (samplerate as u128);
    let v: u128 = (num + den - 1) / den;
    proof {
        assert(num as int >= 12) by (nonlinear_arith)
            requires
                num as int == 12 * ((capture_samplerate as int) * (chunksize as int)),
                capture_samplerate as int >= 1,
                chunksize as int >= 1,
        ;
        assert(den as int >= 10) by (nonlinear_arith)
            requires
                den as int == 10 * (samplerate as int),
                samplerate as int >= 1,
        ;
        vstd::arithmetic::div_mod::lemma_div_is_ordered(
            den as int,
            num as int + den as int - 1,
            den as int,
        );
        vstd::arithmetic::div_mod::lemma_div_by_multiple(1, den as int);
        vstd::arithmetic::div_mod::lemma_div_plus_one(num as int - 1, den as int);
        vstd::arithmetic::div_mod::lemma_div_is_ordered_by_denominator(
            num as int - 1,
            10,
            den as int,
        );
        vstd::arithmetic::div_mod::lemma_div_is_ordered(
            num as int - 1,
            0x2000_0000_0000_0000 - 1,
            10,
        );
        assert((0x2000_0000_0000_0000int - 1) / 10 < 0x1000_0000_0000_0000int) by {
            vstd::arithmetic::div_mod::lemma_fundamental_div_mod_converse(
                0x2000_0000_0000_0000int - 1,
                10,
                230584300921369395int,
                1,
            );
        }
        vstd::arithmetic::power2::lemma2_to64();
        vstd::arithmetic::power2::lemma2_to64_rest();
    }
    let mut p: u64 = 1;
    let ghost mut k: nat = 0nat;
    while (p as u128) < v
        invariant
            1 <= p,
            p as int == pow2(k),
            k <= 60,
            v < 0x1000_0000_0000_0000u128,
            v >= 1,
            k == 0 || pow2((k - 1) as nat) < v as int,
        decreases 0x2000_0000_0000_0000int - p as int,
    {
        proof {
            assert(pow2(60) == 0x1000_0000_0000_0000) by {
                vstd::arithmetic::power2::lemma2_to64_rest();
            }
            if k >= 60 {
                if k > 60 {
                    vstd::arithmetic::power2::lemma_pow2_strictly_increases(60nat, k);
                }
                assert(false);
            }
            vstd::arithmetic::power2::lemma_pow2_unfold((k + 1) as nat);
        }
        p = p * 2;
        proof {
            k = (k + 1) as nat;
        }
    }
    proof {
        if k >= 1 {
            vstd::arithmetic::power2::lemma_pow2_unfold(k);
            assert(p as int == 2 * pow2((k - 1) as nat));
        }
    }
    p as usize
}

/// The hardware buffer size requested on open: twice the nominal size.
pub fn requested_buffer_size(bufsize: i64) -> (r: i64)
    requires
        0 <= bufsize <= i64::MAX / 2,
    ensures
        r == 2 * bufsize,
{
    2 * bufsize
}

/// The period size requested on open: a quarter of the nominal size.
pub fn requested_period_size(bufsize: i64) -> (r: i64)
    requires
        bufsize >= 0,
    ensures
        r as int == (bufsize as int) / 4,
{
    let h = half_pos(bufsize);
    half_pos(h)
}

/// The playback start threshold: half the actual buffer minus one period,
/// so the device starts neither empty nor full.
pub fn playback_start_threshold(act_bufsize: i64, act_periodsize: i64) -> (r: i64)
    requires
        act_bufsize >= 0,
        act_periodsize >= 0,
    ensures
        r as int == (act_bufsize as int) / 2 - act_periodsize,
{
    half_pos(act_bufsize) - act_periodsize
}

} // verus!
