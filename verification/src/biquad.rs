//! Biquad filter: transposed direct-form II kernel and the design formulas
//! for the six coefficient families (free, lowpass, highpass, peaking,
//! highshelf, lowshelf).
//!
//! Coefficients are normalized on construction: the five retained values are
//! the raw ones divided by the raw `a0`, so the kernel runs with an implicit
//! `a0` of exactly one.

use vstd::prelude::*;
use vstd::math::abs;
use vstd::arithmetic::div_mod::lemma_div_is_ordered;
use vstd::arithmetic::div_mod::lemma_div_is_ordered_by_denominator;
use vstd::arithmetic::div_mod::lemma_div_by_multiple;
use crate::PrcFmt;
use crate::Res;
use crate::fixed::FIXED_ONE;
use crate::fixed::FIXED_PI;
use crate::fixed::FIXED_TWO_PI;
use crate::fixed::fadd;
use crate::fixed::fsub;
use crate::fixed::fneg;
use crate::fixed::fmul;
use crate::fixed::fdiv;
use crate::fixed::fsqrt;
use crate::fixed::fpow10;
use crate::fixed::idiv;
use crate::fixed::half_pos;
use crate::fixed::q_add;
use crate::fixed::q_sub;
use crate::fixed::q_neg;
use crate::fixed::q_mul;
use crate::fixed::q_div;
use crate::fixed::q_idiv;
use crate::fixed::q_sin;
use crate::fixed::q_cos;
use crate::fixed::q_sqrt;
use crate::fixed::q_pow10;
use crate::fixed::lemma_q_mul_nonneg;
use crate::fixed::lemma_q_mul_unit_bound;

verus! {

/// Design parameters of one biquad section.  Frequencies, Q values, slopes
/// (dB per octave) and gains (dB) are Q30 fixed-point values.
#[derive(Clone, Copy, Debug)]
pub enum BiquadParameters {
    Free { a1: PrcFmt, a2: PrcFmt, b0: PrcFmt, b1: PrcFmt, b2: PrcFmt },
    Highpass { freq: PrcFmt, q: PrcFmt },
    Lowpass { freq: PrcFmt, q: PrcFmt },
    Peaking { freq: PrcFmt, gain: PrcFmt, q: PrcFmt },
    Highshelf { freq: PrcFmt, slope: PrcFmt, gain: PrcFmt },
    Lowshelf { freq: PrcFmt, slope: PrcFmt, gain: PrcFmt },
}

/// The normalized coefficients of one biquad section (implicit `a0 == 1`).
#[derive(Clone, Copy, Debug)]
pub struct BiquadCoefficients {
    pub a1: PrcFmt,
    pub a2: PrcFmt,
    pub b0: PrcFmt,
    pub b1: PrcFmt,
    pub b2: PrcFmt,
}

/// The digital angular frequency `2*pi*freq/fs` in Q30: both `freq` and the
/// result carry the Q30 scale, `fs` is a plain rate in Hz.
pub open spec fn omega_spec(fs: int, freq: int) -> int
    recommends
        fs >= 1,
{
    (FIXED_TWO_PI as int) * freq / (fs * (FIXED_ONE as int))
}

/// The raw (unnormalized) coefficients of each family, as the sextuple
/// `(a0, a1, a2, b0, b1, b2)`, computed exactly as the executable code does.
pub open spec fn lowpass_raw(fs: int, freq: int, q: int) -> (int, int, int, int, int, int) {
    let w = omega_spec(fs, freq);
    let sn = q_sin(w);
    let cs = q_cos(w);
    let alpha = q_div(sn, q_add(q, q));
    let b1 = q_sub(FIXED_ONE as int, cs);
    let b0 = b1 / 2;
    (
        q_add(FIXED_ONE as int, alpha),
        q_neg(q_add(cs, cs)),
        q_sub(FIXED_ONE as int, alpha),
        b0,
        b1,
        b0,
    )
}

pub open spec fn highpass_raw(fs: int, freq: int, q: int) -> (int, int, int, int, int, int) {
    let w = omega_spec(fs, freq);
    let sn = q_sin(w);
    let cs = q_cos(w);
    let alpha = q_div(sn, q_add(q, q));
    let t = q_add(FIXED_ONE as int, cs);
    let b0 = t / 2;
    (
        q_add(FIXED_ONE as int, alpha),
        q_neg(q_add(cs, cs)),
        q_sub(FIXED_ONE as int, alpha),
        b0,
        q_neg(t),
        b0,
    )
}

pub open spec fn peaking_raw(fs: int, freq: int, gain: int, q: int) -> (
    int,
    int,
    int,
    int,
    int,
    int,
) {
    let w = omega_spec(fs, freq);
    let sn = q_sin(w);
    let cs = q_cos(w);
    let ampl = q_pow10(q_idiv(gain, 40));
    let alpha = q_div(sn, q_add(q, q));
    let t = q_mul(alpha, ampl);
    let u = q_div(alpha, ampl);
    (
        q_add(FIXED_ONE as int, u),
        q_neg(q_add(cs, cs)),
        q_sub(FIXED_ONE as int, u),
        q_add(FIXED_ONE as int, t),
        q_neg(q_add(cs, cs)),
        q_sub(FIXED_ONE as int, t),
    )
}

/// The shared shelf intermediates: amplitude, slope root and beta.
pub open spec fn shelf_alpha_beta(fs: int, freq: int, slope: int, gain: int) -> (int, int, int) {
    let w = omega_spec(fs, freq);
    let sn = q_sin(w);
    let ampl = q_pow10(q_idiv(gain, 40));
    let inv = q_div(FIXED_ONE as int, ampl);
    let s_term = q_sub(q_div(12 * (FIXED_ONE as int), slope), FIXED_ONE as int);
    let inner = q_add(q_mul(q_add(ampl, inv), s_term), 2 * (FIXED_ONE as int));
    let root = q_sqrt(inner);
    let alpha = q_mul(sn / 2, root);
    let sqa = q_sqrt(ampl);
    let beta = q_mul(q_add(sqa, sqa), alpha);
    (ampl, alpha, beta)
}

pub open spec fn highshelf_raw(fs: int, freq: int, slope: int, gain: int) -> (
    int,
    int,
    int,
    int,
    int,
    int,
) {
    let w = omega_spec(fs, freq);
    let cs = q_cos(w);
    let ab = shelf_alpha_beta(fs, freq, slope, gain);
    let ampl = ab.0;
    let beta = ab.2;
    let ap1 = q_add(ampl, FIXED_ONE as int);
    let am1 = q_sub(ampl, FIXED_ONE as int);
    let mcs = q_mul(am1, cs);
    let pcs = q_mul(ap1, cs);
    let t = q_mul(ampl, q_add(am1, pcs));
    let u = q_sub(am1, pcs);
    (
        q_add(q_sub(ap1, mcs), beta),
        q_add(u, u),
        q_sub(q_sub(ap1, mcs), beta),
        q_mul(ampl, q_add(q_add(ap1, mcs), beta)),
        q_neg(q_add(t, t)),
        q_mul(ampl, q_sub(q_add(ap1, mcs), beta)),
    )
}

pub open spec fn lowshelf_raw(fs: int, freq: int, slope: int, gain: int) -> (
    int,
    int,
    int,
    int,
    int,
    int,
) {
    let w = omega_spec(fs, freq);
    let cs = q_cos(w);
    let ab = shelf_alpha_beta(fs, freq, slope, gain);
    let ampl = ab.0;
    let beta = ab.2;
    let ap1 = q_add(ampl, FIXED_ONE as int);
    let am1 = q_sub(ampl, FIXED_ONE as int);
    let mcs = q_mul(am1, cs);
    let pcs = q_mul(ap1, cs);
    let t = q_mul(ampl, q_sub(am1, pcs));
    let u = q_add(am1, pcs);
    (
        q_add(q_add(ap1, mcs), beta),
        q_neg(q_add(u, u)),
        q_sub(q_add(ap1, mcs), beta),
        q_mul(ampl, q_add(q_sub(ap1, mcs), beta)),
        q_add(t, t),
        q_mul(ampl, q_sub(q_sub(ap1, mcs), beta)),
    )
}

/// The result of dividing raw coefficients by their `a0`.
pub open spec fn normalized_coefficients(
    a0: int,
    a1: int,
    a2: int,
    b0: int,
    b1: int,
    b2: int,
) -> BiquadCoefficients
    recommends
        a0 != 0,
{
    BiquadCoefficients {
        a1: q_div(a1, a0) as i64,
        a2: q_div(a2, a0) as i64,
        b0: q_div(b0, a0) as i64,
        b1: q_div(b1, a0) as i64,
        b2: q_div(b2, a0) as i64,
    }
}

pub open spec fn normalized_tuple(t: (int, int, int, int, int, int)) -> BiquadCoefficients
    recommends
        t.0 != 0,
{
    normalized_coefficients(t.0, t.1, t.2, t.3, t.4, t.5)
}

/// The inputs each family accepts: frequencies up to the Nyquist rate,
/// positive Q values, a slope of at most 12 dB per octave, and gains within
/// what the 10^x kernel takes.
pub open spec fn biquad_params_valid(fs: int, p: BiquadParameters) -> bool {
    match p {
        BiquadParameters::Free { .. } => true,
        BiquadParameters::Lowpass { freq, q } => 0 <= freq && 2 * freq <= fs * (FIXED_ONE as int)
            && q >= 1,
        BiquadParameters::Highpass { freq, q } => 0 <= freq && 2 * freq <= fs * (FIXED_ONE as int)
            && q >= 1,
        BiquadParameters::Peaking { freq, gain, q } => 0 <= freq && 2 * freq <= fs * (
        FIXED_ONE as int) && q >= 1 && abs(gain as int) <= 320 * (FIXED_ONE as int),
        BiquadParameters::Highshelf { freq, slope, gain } => 0 <= freq && 2 * freq <= fs * (
        FIXED_ONE as int) && 1 <= slope <= 12 * (FIXED_ONE as int) && abs(gain as int) <= 80 * (
        FIXED_ONE as int),
        BiquadParameters::Lowshelf { freq, slope, gain } => 0 <= freq && 2 * freq <= fs * (
        FIXED_ONE as int) && 1 <= slope <= 12 * (FIXED_ONE as int) && abs(gain as int) <= 80 * (
        FIXED_ONE as int),
    }
}

/// What `from_config` returns for each family.
pub open spec fn coefficients_from_config(fs: int, p: BiquadParameters) -> BiquadCoefficients {
    match p {
        BiquadParameters::Free { a1, a2, b0, b1, b2 } => BiquadCoefficients { a1, a2, b0, b1, b2 },
        BiquadParameters::Lowpass { freq, q } => normalized_tuple(lowpass_raw(fs, freq as int, q as int)),
        BiquadParameters::Highpass { freq, q } => normalized_tuple(highpass_raw(fs, freq as int, q as int)),
        BiquadParameters::Peaking { freq, gain, q } => normalized_tuple(
            peaking_raw(fs, freq as int, gain as int, q as int),
        ),
        BiquadParameters::Highshelf { freq, slope, gain } => normalized_tuple(
            highshelf_raw(fs, freq as int, slope as int, gain as int),
        ),
        BiquadParameters::Lowshelf { freq, slope, gain } => normalized_tuple(
            lowshelf_raw(fs, freq as int, slope as int, gain as int),
        ),
    }
}

/// The digital angular frequency `2*pi*freq/fs`, at most pi for frequencies
/// up to the Nyquist rate.
fn compute_omega(fs: usize, freq: i64) -> (w: i64)
    requires
        fs >= 1,
        0 <= freq,
        2 * freq <= (fs as int) * (FIXED_ONE as int),
    ensures
        w as int == omega_spec(fs as int, freq as int),
        0 <= w <= FIXED_PI,
{
    proof {
        assert((FIXED_TWO_PI as int) * (freq as int) <= 6746518852int * 9223372036854775807int)
            by (nonlinear_arith)
            requires
                FIXED_TWO_PI == 6746518852,
                0 <= freq as int <= 9223372036854775807int,
        ;
        assert((fs as int) * (FIXED_ONE as int) <= 18446744073709551615int * 1073741824int)
            by (nonlinear_arith)
            requires
                FIXED_ONE == 1073741824,
                0 <= fs as int <= 18446744073709551615int,
        ;
        assert((fs as int) * (FIXED_ONE as int) >= 1073741824int) by (nonlinear_arith)
            requires
                FIXED_ONE == 1073741824,
                fs as int >= 1,
        ;
        assert((FIXED_TWO_PI as int) * (freq as int) <= (FIXED_PI as int) * ((fs as int) * (
        FIXED_ONE as int))) by (nonlinear_arith)
            requires
                FIXED_TWO_PI == 6746518852,
                FIXED_PI == 3373259426,
                0 <= freq as int,
                2 * (freq as int) <= (fs as int) * (FIXED_ONE as int),
        ;
    }
    let num: u128 = (FIXED_TWO_PI as u128) * (freq as u128);
    let den: u128 = (fs as u128) * (FIXED_ONE as u128);
    let w: u128 = num / den;
    proof {
        lemma_div_is_ordered(
            num as int,
            (FIXED_PI as int) * (den as int),
            den as int,
        );
        lemma_div_by_multiple(FIXED_PI as int, den as int);
    }
    w as i64
}

impl BiquadCoefficients {
    pub fn new(a1: PrcFmt, a2: PrcFmt, b0: PrcFmt, b1: PrcFmt, b2: PrcFmt) -> (r: Self)
        ensures
            r == (BiquadCoefficients { a1, a2, b0, b1, b2 }),
    {
        BiquadCoefficients { a1, a2, b0, b1, b2 }
    }

    /// Divide all coefficients by `a0`, so the stored set carries an
    /// effective `a0` of one.
    pub fn normalize(a0: PrcFmt, a1: PrcFmt, a2: PrcFmt, b0: PrcFmt, b1: PrcFmt, b2: PrcFmt) -> (r:
        Self)
        requires
            a0 != 0,
        ensures
            r == normalized_coefficients(a0 as int, a1 as int, a2 as int, b0 as int, b1 as int, b2 as int),
    {
        let a1n = fdiv(a1, a0);
        let a2n = fdiv(a2, a0);
        let b0n = fdiv(b0, a0);
        let b1n = fdiv(b1, a0);
        let b2n = fdiv(b2, a0);
        BiquadCoefficients { a1: a1n, a2: a2n, b0: b0n, b1: b1n, b2: b2n }
    }

    /// Build coefficients from design parameters.
    ///
    /// Filter types
    /// - Free: just coefficients.
    /// - Highpass: second order highpass specified by frequency and Q-value.
    /// - Lowpass: second order lowpass specified by frequency and Q-value.
    /// - Peaking: parametric peaking filter specified by gain, frequency and
    ///   Q-value.
    /// - Highshelf: shelving filter affecting high frequencies with
    ///   arbitrary slope in between; the frequency given is the middle of
    ///   the slope.
    /// - Lowshelf: the same, affecting low frequencies.
    pub fn from_config(fs: usize, parameters: BiquadParameters) -> (r: Self)
        requires
            fs >= 1,
            biquad_params_valid(fs as int, parameters),
        ensures
            r == coefficients_from_config(fs as int, parameters),
    {
        match parameters {
            BiquadParameters::Free { a1, a2, b0, b1, b2 } => {
                BiquadCoefficients::new(a1, a2, b0, b1, b2)
            },
            BiquadParameters::Lowpass { freq, q } => {
                let w = compute_omega(fs, freq);
                let sn = crate::fixed::fsin(w);
                let cs = crate::fixed::fcos(w);
                let two_q = fadd(q, q);
                let alpha = fdiv(sn, two_q);
                proof {
                    lemma_div_trunc_nonneg(sn as int, two_q as int);
                }
                let b1 = fsub(FIXED_ONE, cs);
                let b0 = half_pos(b1);
                let a0 = fadd(FIXED_ONE, alpha);
                let a1 = fneg(fadd(cs, cs));
                let a2 = fsub(FIXED_ONE, alpha);
                BiquadCoefficients::normalize(a0, a1, a2, b0, b1, b0)
            },
            BiquadParameters::Highpass { freq, q } => {
                let w = compute_omega(fs, freq);
                let sn = crate::fixed::fsin(w);
                let cs = crate::fixed::fcos(w);
                let two_q = fadd(q, q);
                let alpha = fdiv(sn, two_q);
                proof {
                    lemma_div_trunc_nonneg(sn as int, two_q as int);
                }
                let t = fadd(FIXED_ONE, cs);
                let b0 = half_pos(t);
                let b1 = fneg(t);
                let a0 = fadd(FIXED_ONE, alpha);
                let a1 = fneg(fadd(cs, cs));
                let a2 = fsub(FIXED_ONE, alpha);
                BiquadCoefficients::normalize(a0, a1, a2, b0, b1, b0)
            },
            BiquadParameters::Peaking { freq, gain, q } => {
                let w = compute_omega(fs, freq);
                let sn = crate::fixed::fsin(w);
                let cs = crate::fixed::fcos(w);
                proof {
                    lemma_gain_exponent_in_range(gain as int, 320);
                }
                let ampl = fpow10(idiv(gain, 40));
                let two_q = fadd(q, q);
                let alpha = fdiv(sn, two_q);
                proof {
                    lemma_div_trunc_nonneg(sn as int, two_q as int);
                    lemma_div_trunc_nonneg(alpha as int, ampl as int);
                }
                let t = fmul(alpha, ampl);
                let u = fdiv(alpha, ampl);
                let b0 = fadd(FIXED_ONE, t);
                let b1 = fneg(fadd(cs, cs));
                let b2 = fsub(FIXED_ONE, t);
                let a0 = fadd(FIXED_ONE, u);
                let a1 = fneg(fadd(cs, cs));
                let a2 = fsub(FIXED_ONE, u);
                BiquadCoefficients::normalize(a0, a1, a2, b0, b1, b2)
            },
            BiquadParameters::Highshelf { freq, slope, gain } => {
                let w = compute_omega(fs, freq);
                let sn = crate::fixed::fsin(w);
                let cs = crate::fixed::fcos(w);
                let ab = compute_shelf_alpha_beta(fs, freq, slope, gain, w, sn);
                let ampl = ab.0;
                let beta = ab.2;
                let ap1 = fadd(ampl, FIXED_ONE);
                let am1 = fsub(ampl, FIXED_ONE);
                proof {
                    lemma_q_mul_unit_bound(am1 as int, cs as int);
                }
                let mcs = fmul(am1, cs);
                let pcs = fmul(ap1, cs);
                let t = fmul(ampl, fadd(am1, pcs));
                let u = fsub(am1, pcs);
                let b0 = fmul(ampl, fadd(fadd(ap1, mcs), beta));
                let b1 = fneg(fadd(t, t));
                let b2 = fmul(ampl, fsub(fadd(ap1, mcs), beta));
                let a0 = fadd(fsub(ap1, mcs), beta);
                let a1 = fadd(u, u);
                let a2 = fsub(fsub(ap1, mcs), beta);
                BiquadCoefficients::normalize(a0, a1, a2, b0, b1, b2)
            },
            BiquadParameters::Lowshelf { freq, slope, gain } => {
                let w = compute_omega(fs, freq);
                let sn = crate::fixed::fsin(w);
                let cs = crate::fixed::fcos(w);
                let ab = compute_shelf_alpha_beta(fs, freq, slope, gain, w, sn);
                let ampl = ab.0;
                let beta = ab.2;
                let ap1 = fadd(ampl, FIXED_ONE);
                let am1 = fsub(ampl, FIXED_ONE);
                proof {
                    lemma_q_mul_unit_bound(am1 as int, cs as int);
                }
                let mcs = fmul(am1, cs);
                let pcs = fmul(ap1, cs);
                let t = fmul(ampl, fsub(am1, pcs));
                let u = fadd(am1, pcs);
                let b0 = fmul(ampl, fadd(fsub(ap1, mcs), beta));
                let b1 = fadd(t, t);
                let b2 = fmul(ampl, fsub(fsub(ap1, mcs), beta));
                let a0 = fadd(fadd(ap1, mcs), beta);
                let a1 = fneg(fadd(u, u));
                let a2 = fsub(fadd(ap1, mcs), beta);
                BiquadCoefficients::normalize(a0, a1, a2, b0, b1, b2)
            },
        }
    }
}

/// A truncated quotient of nonnegative values is nonnegative and, saturated,
/// stays so.
proof fn lemma_div_trunc_nonneg(a: int, b: int)
    requires
        a >= 0,
        b >= 1,
    ensures
        q_div(a, b) >= 0,
{
    assert(a * (FIXED_ONE as int) >= 0) by (nonlinear_arith)
        requires
            a >= 0,
            FIXED_ONE == 1073741824,
    ;
}

/// A gain within `limit` dB turns into a `10^x` exponent within range after
/// the division by 40.
proof fn lemma_gain_exponent_in_range(gain: int, limit: int)
    requires
        abs(gain) <= limit * (FIXED_ONE as int),
        0 < limit <= 320,
        limit % 40 == 0,
    ensures
        abs(q_idiv(gain, 40)) <= (limit / 40) * (FIXED_ONE as int),
        (limit / 40) * (FIXED_ONE as int) <= 8 * (FIXED_ONE as int),
{
    lemma_div_is_ordered(abs(gain) as int, limit * (FIXED_ONE as int), 40);
    vstd::arithmetic::div_mod::lemma_fundamental_div_mod(limit, 40);
    assert(limit * (FIXED_ONE as int) == ((limit / 40) * (FIXED_ONE as int)) * 40)
        by (nonlinear_arith)
        requires
            limit == 40 * (limit / 40),
    ;
    lemma_div_by_multiple((limit / 40) * (FIXED_ONE as int), 40);
    assert((limit / 40) * (FIXED_ONE as int) <= 8 * (FIXED_ONE as int)) by (nonlinear_arith)
        requires
            0 < limit <= 320,
            limit == 40 * (limit / 40),
            FIXED_ONE == 1073741824,
    ;
    assert(abs(q_idiv(gain, 40)) <= abs(gain) / 40);
}

/// The shared shelf intermediates, with the facts later steps need: the
/// amplitude is moderate and positive, beta is nonnegative.
fn compute_shelf_alpha_beta(fs: usize, freq: i64, slope: i64, gain: i64, w: i64, sn: i64) -> (r: (
    i64,
    i64,
    i64,
))
    requires
        fs >= 1,
        1 <= slope <= 12 * FIXED_ONE,
        abs(gain as int) <= 80 * (FIXED_ONE as int),
        w as int == omega_spec(fs as int, freq as int),
        0 <= w <= FIXED_PI,
        sn as int == q_sin(w as int),
        0 <= sn <= FIXED_ONE,
    ensures
        (r.0 as int, r.1 as int, r.2 as int) == shelf_alpha_beta(
            fs as int,
            freq as int,
            slope as int,
            gain as int,
        ),
        1 <= r.0 <= 1024 * FIXED_ONE,
        r.1 >= 0,
        r.2 >= 0,
{
    proof {
        lemma_gain_exponent_in_range(gain as int, 80);
    }
    let ampl = fpow10(idiv(gain, 40));
    let inv = fdiv(FIXED_ONE, ampl);
    proof {
        lemma_div_trunc_nonneg(FIXED_ONE as int, ampl as int);
        lemma_div_trunc_nonneg(12 * (FIXED_ONE as int), slope as int);
        lemma_div_is_ordered_by_denominator(
            12 * (FIXED_ONE as int) * (FIXED_ONE as int),
            slope as int,
            12 * (FIXED_ONE as int),
        );
        lemma_div_by_multiple(FIXED_ONE as int, 12 * (FIXED_ONE as int));
        assert((FIXED_ONE as int) * (12 * (FIXED_ONE as int)) == 12 * (FIXED_ONE as int) * (
        FIXED_ONE as int)) by (nonlinear_arith);
        assert(12 * (FIXED_ONE as int) * (FIXED_ONE as int) == (12 * (FIXED_ONE as int)) * (
        FIXED_ONE as int)) by (nonlinear_arith);
    }
    let t12 = fdiv(12 * FIXED_ONE, slope);
    let s_term = fsub(t12, FIXED_ONE);
    let sum_a = fadd(ampl, inv);
    proof {
        lemma_q_mul_nonneg(sum_a as int, s_term as int);
    }
    let prod = fmul(sum_a, s_term);
    let inner = fadd(prod, 2 * FIXED_ONE);
    let root = fsqrt(inner);
    let sn2 = half_pos(sn);
    proof {
        lemma_q_mul_nonneg(sn2 as int, root as int);
    }
    let alpha = fmul(sn2, root);
    let sqa = fsqrt(ampl);
    proof {
        lemma_q_mul_nonneg(q_add(sqa as int, sqa as int), alpha as int);
    }
    let beta = fmul(fadd(sqa, sqa), alpha);
    (ampl, alpha, beta)
}

/// Dividing by a raw `a0` of exactly one returns every coefficient
/// unchanged: normalization is the identity once the set is normalized.
pub proof fn lemma_normalize_identity(a1: int, a2: int, b0: int, b1: int, b2: int)
    requires
        i64::MIN <= a1 <= i64::MAX,
        i64::MIN <= a2 <= i64::MAX,
        i64::MIN <= b0 <= i64::MAX,
        i64::MIN <= b1 <= i64::MAX,
        i64::MIN <= b2 <= i64::MAX,
    ensures
        normalized_coefficients(FIXED_ONE as int, a1, a2, b0, b1, b2) == (BiquadCoefficients {
            a1: a1 as i64,
            a2: a2 as i64,
            b0: b0 as i64,
            b1: b1 as i64,
            b2: b2 as i64,
        }),
{
    lemma_div_by_one(a1);
    lemma_div_by_one(a2);
    lemma_div_by_one(b0);
    lemma_div_by_one(b1);
    lemma_div_by_one(b2);
}

proof fn lemma_div_by_one(x: int)
    requires
        i64::MIN <= x <= i64::MAX,
    ensures
        q_div(x, FIXED_ONE as int) == x,
{
    assert(abs(x * (FIXED_ONE as int)) == abs(x) * (FIXED_ONE as int)) by (nonlinear_arith)
        requires
            FIXED_ONE == 1073741824,
    ;
    lemma_div_by_multiple(abs(x) as int, FIXED_ONE as int);
    assert((x * (FIXED_ONE as int) < 0) == (x < 0)) by (nonlinear_arith)
        requires
            FIXED_ONE == 1073741824,
    ;
}

/// One step of the transposed direct-form II kernel: the output and the two
/// new delay registers, from coefficients, registers and the input sample.
pub open spec fn biquad_step(c: BiquadCoefficients, s1: int, s2: int, x: int) -> (int, int, int) {
    let y = q_add(s1, q_mul(c.b0 as int, x));
    let ns1 = q_sub(q_add(s2, q_mul(c.b1 as int, x)), q_mul(c.a1 as int, y));
    let ns2 = q_sub(q_mul(c.b2 as int, x), q_mul(c.a2 as int, y));
    (y, ns1, ns2)
}

/// The delay registers after running the kernel over a whole sequence.
pub open spec fn biquad_state_after(c: BiquadCoefficients, s1: int, s2: int, xs: Seq<i64>) -> (
    int,
    int,
)
    decreases xs.len(),
{
    if xs.len() == 0 {
        (s1, s2)
    } else {
        let prev = biquad_state_after(c, s1, s2, xs.drop_last());
        let st = biquad_step(c, prev.0, prev.1, xs.last() as int);
        (st.1, st.2)
    }
}

/// The output sample the kernel produces at index `j` of a sequence.
pub open spec fn biquad_output_at(
    c: BiquadCoefficients,
    s1: int,
    s2: int,
    xs: Seq<i64>,
    j: int,
) -> int
    recommends
        0 <= j < xs.len(),
{
    let prev = biquad_state_after(c, s1, s2, xs.take(j));
    biquad_step(c, prev.0, prev.1, xs[j] as int).0
}

/// The delay registers carry over: running the kernel over a concatenation
/// is running it over the first part, then over the second from the state
/// the first part left behind.  This is why processing one waveform in
/// several calls gives the same samples as one call over the whole of it.
pub proof fn lemma_biquad_state_composes(
    c: BiquadCoefficients,
    s1: int,
    s2: int,
    xs: Seq<i64>,
    ys: Seq<i64>,
)
    ensures
        biquad_state_after(c, s1, s2, xs + ys) == biquad_state_after(
            c,
            biquad_state_after(c, s1, s2, xs).0,
            biquad_state_after(c, s1, s2, xs).1,
            ys,
        ),
    decreases ys.len(),
{
    if ys.len() == 0 {
        assert(xs + ys =~= xs);
    } else {
        lemma_biquad_state_composes(c, s1, s2, xs, ys.drop_last());
        assert((xs + ys).drop_last() =~= xs + ys.drop_last());
        assert((xs + ys).last() == ys.last());
    }
}

/// A biquad filter instance: the normalized coefficients and the two delay
/// registers of the transposed direct-form II structure.
#[derive(Clone, Copy, Debug)]
pub struct Biquad {
    pub s1: PrcFmt,
    pub s2: PrcFmt,
    pub coeffs: BiquadCoefficients,
}

impl Biquad {
    /// The coefficients this filter runs with.
    pub open spec fn coefficients(&self) -> BiquadCoefficients {
        self.coeffs
    }

    /// Creates a transposed direct-form II biquad filter from a set of
    /// coefficients, with cleared delay registers.
    pub fn new(coefficients: BiquadCoefficients) -> (r: Self)
        ensures
            r.coefficients() == coefficients,
            r.s1 == 0,
            r.s2 == 0,
    {
        Biquad { s1: 0, s2: 0, coeffs: coefficients }
    }

    /// Process a single sample.
    fn process_single(&mut self, input: PrcFmt) -> (out: PrcFmt)
        ensures
            final(self).coefficients() == old(self).coefficients(),
            out as int == biquad_step(
                old(self).coefficients(),
                old(self).s1 as int,
                old(self).s2 as int,
                input as int,
            ).0,
            final(self).s1 as int == biquad_step(
                old(self).coefficients(),
                old(self).s1 as int,
                old(self).s2 as int,
                input as int,
            ).1,
            final(self).s2 as int == biquad_step(
                old(self).coefficients(),
                old(self).s1 as int,
                old(self).s2 as int,
                input as int,
            ).2,
    {
        let out = fadd(self.s1, fmul(self.coeffs.b0, input));
        self.s1 = fsub(fadd(self.s2, fmul(self.coeffs.b1, input)), fmul(self.coeffs.a1, out));
        self.s2 = fsub(fmul(self.coeffs.b2, input), fmul(self.coeffs.a2, out));
        out
    }

    /// Process a waveform in place.  Every output sample is the kernel's
    /// output for the corresponding input prefix, and the delay registers
    /// end as the kernel leaves them after the whole waveform.
    pub fn process_waveform(&mut self, waveform: &mut Vec<PrcFmt>) -> (r: Res<()>)
        ensures
            r is Ok,
            final(self).coefficients() == old(self).coefficients(),
            final(waveform)@.len() == old(waveform)@.len(),
            forall|j: int|
                0 <= j < old(waveform)@.len() ==> #[trigger] final(waveform)@[j] as int
                    == biquad_output_at(
                    old(self).coefficients(),
                    old(self).s1 as int,
                    old(self).s2 as int,
                    old(waveform)@,
                    j,
                ),
            final(self).s1 as int == biquad_state_after(
                old(self).coefficients(),
                old(self).s1 as int,
                old(self).s2 as int,
                old(waveform)@,
            ).0,
            final(self).s2 as int == biquad_state_after(
                old(self).coefficients(),
                old(self).s1 as int,
                old(self).s2 as int,
                old(waveform)@,
            ).1,
    {
        let ghost c = self.coeffs;
        let ghost os1 = self.s1 as int;
        let ghost os2 = self.s2 as int;
        let ghost orig = waveform@;
        let mut i: usize = 0;
        proof {
            assert(orig.take(0) =~= Seq::<i64>::empty());
        }
        while i < waveform.len()
            invariant
                self.coeffs == c,
                i <= orig.len(),
                waveform@.len() == orig.len(),
                forall|j: int| i <= j < orig.len() ==> waveform@[j] == orig[j],
                forall|j: int|
                    0 <= j < i ==> #[trigger] waveform@[j] as int == biquad_output_at(
                        c,
                        os1,
                        os2,
                        orig,
                        j,
                    ),
                self.s1 as int == biquad_state_after(c, os1, os2, orig.take(i as int)).0,
                self.s2 as int == biquad_state_after(c, os1, os2, orig.take(i as int)).1,
            decreases orig.len() - i,
        {
            let x = waveform[i];
            let y = self.process_single(x);
            waveform.set(i, y);
            proof {
                assert(orig.take(i + 1).drop_last() =~= orig.take(i as int));
                assert(orig.take(i + 1).last() == orig[i as int]);
            }
            i = i + 1;
        }
        proof {
            assert(orig.take(orig.len() as int) =~= orig);
        }
        Ok(())
    }
}

} // verus!
