//! Q30 fixed-point arithmetic for the processing sample format.
//!
//! A value `v: i64` stands for the real number `v / 2^30`.  All operations
//! saturate at the `i64` range instead of overflowing; products and quotients
//! are truncated toward zero, like the underlying hardware division.

use vstd::prelude::*;
use vstd::math::abs;
use vstd::arithmetic::div_mod::lemma_fundamental_div_mod_converse;
use vstd::arithmetic::div_mod::lemma_div_is_ordered;
use vstd::arithmetic::power2::pow2;
use vstd::arithmetic::power2::lemma2_to64;

verus! {

/// The fixed-point representation of 1.0 (`2^30`).
pub const FIXED_ONE: i64 = 1073741824;

/// Clamp a mathematical integer into the `i64` range.
pub open spec fn sat64(x: int) -> int {
    if x > i64::MAX as int {
        i64::MAX as int
    } else if x < i64::MIN as int {
        i64::MIN as int
    } else {
        x
    }
}

/// Quotient of `a / b` truncated toward zero (the rounding of a hardware
/// division), defined through magnitudes.
pub open spec fn div_trunc(a: int, b: int) -> int
    recommends
        b != 0,
{
    if (a < 0) == (b < 0) {
        (abs(a) / abs(b)) as int
    } else {
        -((abs(a) / abs(b)) as int)
    }
}

/// Saturating fixed-point addition.
pub open spec fn q_add(a: int, b: int) -> int {
    sat64(a + b)
}

/// Saturating fixed-point subtraction.
pub open spec fn q_sub(a: int, b: int) -> int {
    sat64(a - b)
}

/// Saturating fixed-point negation.
pub open spec fn q_neg(a: int) -> int {
    sat64(-a)
}

/// Saturating fixed-point absolute value.
pub open spec fn q_abs(a: int) -> int {
    sat64(abs(a) as int)
}

/// Saturating fixed-point product: `a * b / 2^30`, truncated toward zero.
pub open spec fn q_mul(a: int, b: int) -> int {
    sat64(div_trunc(a * b, FIXED_ONE as int))
}

/// Saturating fixed-point quotient: `a * 2^30 / b`, truncated toward zero.
pub open spec fn q_div(a: int, b: int) -> int
    recommends
        b != 0,
{
    sat64(div_trunc(a * (FIXED_ONE as int), b))
}

fn sat_i128(x: i128) -> (r: i64)
    ensures
        r as int == sat64(x as int),
{
    if x > i64::MAX as i128 {
        i64::MAX
    } else if x < i64::MIN as i128 {
        i64::MIN
    } else {
        x as i64
    }
}

/// Magnitude of an `i64`, exact even for `i64::MIN`.
fn abs_u64(a: i64) -> (r: u64)
    ensures
        r as int == abs(a as int),
{
    if a >= 0 {
        a as u64
    } else if a == i64::MIN {
        9223372036854775808u64
    } else {
        (-a) as u64
    }
}

fn sat_pos_u128(m: u128) -> (r: i64)
    ensures
        r as int == sat64(m as int),
{
    if m > i64::MAX as u128 {
        i64::MAX
    } else {
        m as i64
    }
}

fn sat_neg_u128(m: u128) -> (r: i64)
    ensures
        r as int == sat64(-(m as int)),
{
    if m >= 9223372036854775808u128 {
        i64::MIN
    } else {
        -(m as i64)
    }
}

/// Saturating addition of two fixed-point values.
pub fn fadd(a: i64, b: i64) -> (r: i64)
    ensures
        r as int == q_add(a as int, b as int),
{
    let s: i128 = a as i128 + b as i128;
    sat_i128(s)
}

/// Saturating subtraction of two fixed-point values.
pub fn fsub(a: i64, b: i64) -> (r: i64)
    ensures
        r as int == q_sub(a as int, b as int),
{
    let s: i128 = a as i128 - b as i128;
    sat_i128(s)
}

/// Saturating negation of a fixed-point value.
pub fn fneg(a: i64) -> (r: i64)
    ensures
        r as int == q_neg(a as int),
{
    let s: i128 = -(a as i128);
    sat_i128(s)
}

/// Saturating absolute value of a fixed-point value.
pub fn fabs(a: i64) -> (r: i64)
    ensures
        r as int == q_abs(a as int),
{
    if a >= 0 {
        a
    } else if a == i64::MIN {
        i64::MAX
    } else {
        -a
    }
}

/// Saturating fixed-point multiplication.
pub fn fmul(a: i64, b: i64) -> (r: i64)
    ensures
        r as int == q_mul(a as int, b as int),
{
    let am: u64 = abs_u64(a);
    let bm: u64 = abs_u64(b);
    proof {
        assert((am as int) * (bm as int) <= 9223372036854775808int * 9223372036854775808int)
            by (nonlinear_arith)
            requires
                0 <= am as int <= 9223372036854775808int,
                0 <= bm as int <= 9223372036854775808int,
        ;
        assert(abs((a as int) * (b as int)) == abs(a as int) * abs(b as int)) by (nonlinear_arith);
        assert(((a < 0) == (b < 0)) ==> (a as int) * (b as int) >= 0) by (nonlinear_arith);
        assert(((a < 0) != (b < 0)) ==> (a as int) * (b as int) <= 0) by (nonlinear_arith);
    }
    let p: u128 = (am as u128) * (bm as u128);
    let q: u128 = p / (FIXED_ONE as u128);
    if (a < 0) == (b < 0) {
        sat_pos_u128(q)
    } else {
        sat_neg_u128(q)
    }
}

/// Saturating fixed-point division, truncated toward zero.
pub fn fdiv(a: i64, b: i64) -> (r: i64)
    requires
        b != 0,
    ensures
        r as int == q_div(a as int, b as int),
{
    let am: u64 = abs_u64(a);
    let bm: u64 = abs_u64(b);
    proof {
        assert(abs((a as int) * (FIXED_ONE as int)) == abs(a as int) * (FIXED_ONE as int))
            by (nonlinear_arith)
            requires
                FIXED_ONE == 1073741824,
        ;
        assert(((a as int) * (FIXED_ONE as int) < 0) == ((a as int) < 0)) by (nonlinear_arith)
            requires
                FIXED_ONE == 1073741824,
        ;
    }
    let num: u128 = (am as u128) * (FIXED_ONE as u128);
    let q: u128 = num / (bm as u128);
    if (a < 0) == (b < 0) {
        sat_pos_u128(q)
    } else {
        sat_neg_u128(q)
    }
}

/// Saturating integer division, truncated toward zero (no Q30 rescaling).
pub open spec fn q_idiv(a: int, b: int) -> int
    recommends
        b != 0,
{
    sat64(div_trunc(a, b))
}

/// Saturating plain integer division of two `i64` values, truncated toward
/// zero.
pub fn idiv(a: i64, b: i64) -> (r: i64)
    requires
        b != 0,
    ensures
        r as int == q_idiv(a as int, b as int),
{
    let am: u64 = abs_u64(a);
    let bm: u64 = abs_u64(b);
    let q: u64 = am / bm;
    if (a < 0) == (b < 0) {
        if q > i64::MAX as u64 {
            i64::MAX
        } else {
            q as i64
        }
    } else {
        if q >= 9223372036854775808u64 {
            i64::MIN
        } else {
            -(q as i64)
        }
    }
}

/// Halve a nonnegative value (exact floor).
pub fn half_pos(x: i64) -> (r: i64)
    requires
        x >= 0,
    ensures
        r as int == (x as int) / 2,
{
    ((x as u64) / 2) as i64
}

/// `r` is the integer square root of `v`.
pub open spec fn is_isqrt(v: int, r: int) -> bool {
    &&& 0 <= r
    &&& r * r <= v
    &&& (r + 1) * (r + 1) > v
}

/// The integer square root is unique.
pub proof fn lemma_isqrt_unique(v: int, r1: int, r2: int)
    requires
        is_isqrt(v, r1),
        is_isqrt(v, r2),
    ensures
        r1 == r2,
{
    if r1 < r2 {
        assert((r1 + 1) * (r1 + 1) <= r2 * r2) by (nonlinear_arith)
            requires
                0 <= r1,
                r1 < r2,
        ;
    }
    if r2 < r1 {
        assert((r2 + 1) * (r2 + 1) <= r1 * r1) by (nonlinear_arith)
            requires
                0 <= r2,
                r2 < r1,
        ;
    }
}

/// The fixed-point square root: the largest `r` with `r^2 <= x * 2^30`, so
/// that `r` again carries Q30 scaling.
pub open spec fn q_sqrt(x: int) -> int {
    choose|r: int| #[trigger] is_isqrt(x * (FIXED_ONE as int), r)
}

fn isqrt_u128(v: u128) -> (r: u128)
    ensures
        is_isqrt(v as int, r as int),
{
    let mut lo: u128 = 0;
    let mut hi: u128 = 18446744073709551616u128;
    assert(18446744073709551616int * 18446744073709551616int > u128::MAX as int);
    while hi - lo > 1
        invariant
            0 <= lo < hi,
            hi <= 18446744073709551616u128,
            (lo as int) * (lo as int) <= v as int,
            (hi as int) * (hi as int) > v as int,
        decreases hi - lo,
    {
        let mid: u128 = lo + (hi - lo) / 2;
        proof {
            assert((mid as int) * (mid as int) < 18446744073709551616int
                * 18446744073709551616int) by (nonlinear_arith)
                requires
                    0 <= mid as int,
                    (mid as int) < 18446744073709551616int,
            ;
        }
        let sq: u128 = mid * mid;
        if sq <= v {
            lo = mid;
        } else {
            hi = mid;
        }
    }
    lo
}

/// Fixed-point square root.
pub fn fsqrt(x: i64) -> (r: i64)
    requires
        x >= 0,
    ensures
        r as int == q_sqrt(x as int),
        is_isqrt((x as int) * (FIXED_ONE as int), r as int),
        r >= 0,
{
    proof {
        assert((x as int) * (FIXED_ONE as int) <= 9223372036854775808int * 1073741824int)
            by (nonlinear_arith)
            requires
                0 <= x as int <= 9223372036854775808int,
                FIXED_ONE == 1073741824,
        ;
    }
    let v: u128 = (x as u128) * (FIXED_ONE as u128);
    let s: u128 = isqrt_u128(v);
    proof {
        if s as int > 281474976710656int {
            assert((s as int) * (s as int) > 9223372036854775808int * 1073741824int)
                by (nonlinear_arith)
                requires
                    s as int > 281474976710656int,
            ;
        }
        assert(is_isqrt((x as int) * (FIXED_ONE as int), s as int));
        lemma_isqrt_unique((x as int) * (FIXED_ONE as int), q_sqrt(x as int), s as int);
    }
    s as i64
}

/// Fixed-point pi.
pub const FIXED_PI: i64 = 3373259426;

/// Fixed-point pi / 2.
pub const FIXED_HALF_PI: i64 = 1686629713;

/// Fixed-point 2 * pi.
pub const FIXED_TWO_PI: i64 = 6746518852;

/// Fixed-point ln 2.
pub const LN2_Q: i64 = 744261118;

/// Fixed-point log2 10.
pub const LOG2_10_Q: i64 = 3566893132;

/// Taylor coefficients 1/3!, 1/5!, ..., 1/11! of the sine series, in Q30.
pub const SIN_C3: i64 = 178956971;

pub const SIN_C5: i64 = 8947849;

pub const SIN_C7: i64 = 213044;

pub const SIN_C9: i64 = 2959;

pub const SIN_C11: i64 = 27;

/// Taylor coefficients 1/2!, 1/4!, ..., 1/12! of the cosine series, in Q30.
pub const COS_C2: i64 = 536870912;

pub const COS_C4: i64 = 44739243;

pub const COS_C6: i64 = 1491308;

pub const COS_C8: i64 = 26631;

pub const COS_C10: i64 = 296;

pub const COS_C12: i64 = 2;

/// Taylor coefficients 1/2!, ..., 1/10! of the exponential series, in Q30.
pub const EXP_C2: i64 = 536870912;

pub const EXP_C3: i64 = 178956971;

pub const EXP_C4: i64 = 44739243;

pub const EXP_C5: i64 = 8947849;

pub const EXP_C6: i64 = 1491308;

pub const EXP_C7: i64 = 213044;

pub const EXP_C8: i64 = 26631;

pub const EXP_C9: i64 = 2959;

pub const EXP_C10: i64 = 296;

/// Clamp `v` into `[lo, hi]`.
pub open spec fn clamp(v: int, lo: int, hi: int) -> int {
    if v < lo {
        lo
    } else if v > hi {
        hi
    } else {
        v
    }
}

/// Taylor polynomial of sine on `[0, pi/2]`, evaluated in Q30 by Horner's
/// rule: `x * (1 - x^2*(1/3! - x^2*(1/5! - x^2*(1/7! - x^2*(1/9! - x^2/11!)))))`.
pub open spec fn sin_poly(x: int) -> int {
    let x2 = q_mul(x, x);
    let t9 = q_sub(SIN_C9 as int, q_mul(x2, SIN_C11 as int));
    let t7 = q_sub(SIN_C7 as int, q_mul(x2, t9));
    let t5 = q_sub(SIN_C5 as int, q_mul(x2, t7));
    let t3 = q_sub(SIN_C3 as int, q_mul(x2, t5));
    let t1 = q_sub(FIXED_ONE as int, q_mul(x2, t3));
    q_mul(x, t1)
}

/// Fixed-point sine on `[0, pi]`: fold `(pi/2, pi]` onto `[0, pi/2)` by
/// `sin(pi - x) == sin(x)`, evaluate the series, clamp into `[0, 1]`.
pub open spec fn q_sin(x: int) -> int
    recommends
        0 <= x <= FIXED_PI as int,
{
    let folded = if x > FIXED_HALF_PI as int {
        (FIXED_PI as int) - x
    } else {
        x
    };
    clamp(sin_poly(folded), 0, FIXED_ONE as int)
}

/// Taylor polynomial of cosine on `[0, pi/2]`, evaluated in Q30 by Horner's
/// rule.
pub open spec fn cos_poly(x: int) -> int {
    let x2 = q_mul(x, x);
    let t10 = q_sub(COS_C10 as int, q_mul(x2, COS_C12 as int));
    let t8 = q_sub(COS_C8 as int, q_mul(x2, t10));
    let t6 = q_sub(COS_C6 as int, q_mul(x2, t8));
    let t4 = q_sub(COS_C4 as int, q_mul(x2, t6));
    let t2 = q_sub(COS_C2 as int, q_mul(x2, t4));
    q_sub(FIXED_ONE as int, q_mul(x2, t2))
}

/// Fixed-point cosine on `[0, pi]`: fold `(pi/2, pi]` by
/// `cos(pi - x) == -cos(x)`, evaluate the series, clamp into `[-1, 1]`.
pub open spec fn q_cos(x: int) -> int
    recommends
        0 <= x <= FIXED_PI as int,
{
    let v = if x > FIXED_HALF_PI as int {
        -cos_poly((FIXED_PI as int) - x)
    } else {
        cos_poly(x)
    };
    clamp(v, -(FIXED_ONE as int), FIXED_ONE as int)
}

/// Fixed-point sine on `[0, pi]`.
pub fn fsin(x: i64) -> (r: i64)
    requires
        0 <= x <= FIXED_PI,
    ensures
        r as int == q_sin(x as int),
        0 <= r <= FIXED_ONE,
{
    let folded: i64 = if x > FIXED_HALF_PI {
        FIXED_PI - x
    } else {
        x
    };
    let x2 = fmul(folded, folded);
    let t9 = fsub(SIN_C9, fmul(x2, SIN_C11));
    let t7 = fsub(SIN_C7, fmul(x2, t9));
    let t5 = fsub(SIN_C5, fmul(x2, t7));
    let t3 = fsub(SIN_C3, fmul(x2, t5));
    let t1 = fsub(FIXED_ONE, fmul(x2, t3));
    let p = fmul(folded, t1);
    if p < 0 {
        0
    } else if p > FIXED_ONE {
        FIXED_ONE
    } else {
        p
    }
}

/// Fixed-point cosine on `[0, pi]`.
pub fn fcos(x: i64) -> (r: i64)
    requires
        0 <= x <= FIXED_PI,
    ensures
        r as int == q_cos(x as int),
        -FIXED_ONE <= r <= FIXED_ONE,
{
    let folded: i64 = if x > FIXED_HALF_PI {
        FIXED_PI - x
    } else {
        x
    };
    let x2 = fmul(folded, folded);
    let t10 = fsub(COS_C10, fmul(x2, COS_C12));
    let t8 = fsub(COS_C8, fmul(x2, t10));
    let t6 = fsub(COS_C6, fmul(x2, t8));
    let t4 = fsub(COS_C4, fmul(x2, t6));
    let t2 = fsub(COS_C2, fmul(x2, t4));
    let v = fsub(FIXED_ONE, fmul(x2, t2));
    let signed = if x > FIXED_HALF_PI {
        fneg(v)
    } else {
        v
    };
    if signed < -FIXED_ONE {
        -FIXED_ONE
    } else if signed > FIXED_ONE {
        FIXED_ONE
    } else {
        signed
    }
}

/// Repeated saturating doubling.
pub open spec fn double_n(v: int, n: nat) -> int
    decreases n,
{
    if n == 0 {
        v
    } else {
        double_n(sat64(2 * v), (n - 1) as nat)
    }
}

/// Repeated halving (floor), for nonnegative values.
pub open spec fn halve_n(v: int, n: nat) -> int
    recommends
        v >= 0,
    decreases n,
{
    if n == 0 {
        v
    } else {
        halve_n(v / 2, (n - 1) as nat)
    }
}

/// Doubling keeps a nonnegative value nonnegative and at least as large.
proof fn lemma_double_ge(v: int, n: nat)
    requires
        0 <= v <= i64::MAX as int,
    ensures
        double_n(v, n) >= v,
    decreases n,
{
    if n > 0 {
        lemma_double_ge(sat64(2 * v), (n - 1) as nat);
    }
}

/// Doubling `n` times grows a nonnegative value at most `2^n`-fold.
proof fn lemma_double_le(v: int, n: nat)
    requires
        0 <= v,
    ensures
        double_n(v, n) <= pow2(n) * v,
        0 <= double_n(v, n),
    decreases n,
{
    vstd::arithmetic::power2::lemma_pow2_pos(n);
    if n == 0 {
        assert(pow2(0) == 1) by {
            vstd::arithmetic::power2::lemma2_to64();
        }
    } else {
        let w = sat64(2 * v);
        lemma_double_le(w, (n - 1) as nat);
        vstd::arithmetic::power2::lemma_pow2_unfold(n);
        vstd::arithmetic::power2::lemma_pow2_pos((n - 1) as nat);
        assert(pow2((n - 1) as nat) * w <= pow2((n - 1) as nat) * (2 * v)) by (nonlinear_arith)
            requires
                w <= 2 * v,
                pow2((n - 1) as nat) >= 1,
        ;
        assert(pow2((n - 1) as nat) * (2 * v) == (2 * pow2((n - 1) as nat)) * v)
            by (nonlinear_arith);
    }
}

/// Halving never grows a nonnegative value and keeps it nonnegative.
proof fn lemma_halve_le(v: int, n: nat)
    requires
        0 <= v,
    ensures
        0 <= halve_n(v, n) <= v,
    decreases n,
{
    if n > 0 {
        lemma_halve_le(v / 2, (n - 1) as nat);
    }
}

/// A value at least `2^n` stays at least 1 through `n` halvings.
proof fn lemma_halve_pos(v: int, n: nat)
    requires
        v >= pow2(n),
    ensures
        halve_n(v, n) >= 1,
    decreases n,
{
    vstd::arithmetic::power2::lemma_pow2_pos(n);
    if n > 0 {
        assert(pow2(n) == 2 * pow2((n - 1) as nat)) by {
            vstd::arithmetic::power2::lemma_pow2_unfold(n);
        }
        assert(v / 2 >= pow2((n - 1) as nat));
        lemma_halve_pos(v / 2, (n - 1) as nat);
    }
}

/// Scale `v` by `2^n` (saturating) or `2^-n` (flooring).
pub open spec fn pow2_scale(v: int, n: int) -> int
    recommends
        v >= 0,
{
    if n >= 0 {
        double_n(v, n as nat)
    } else {
        halve_n(v, (-n) as nat)
    }
}

/// `e^w` on `[0, ln 2)` by the Taylor series in Q30 (Horner's rule).
pub open spec fn exp_poly(w: int) -> int {
    let a9 = q_add(EXP_C9 as int, q_mul(w, EXP_C10 as int));
    let a8 = q_add(EXP_C8 as int, q_mul(w, a9));
    let a7 = q_add(EXP_C7 as int, q_mul(w, a8));
    let a6 = q_add(EXP_C6 as int, q_mul(w, a7));
    let a5 = q_add(EXP_C5 as int, q_mul(w, a6));
    let a4 = q_add(EXP_C4 as int, q_mul(w, a5));
    let a3 = q_add(EXP_C3 as int, q_mul(w, a4));
    let a2 = q_add(EXP_C2 as int, q_mul(w, a3));
    let a1 = q_add(FIXED_ONE as int, q_mul(w, a2));
    q_add(FIXED_ONE as int, q_mul(w, a1))
}

/// `2^(f / 2^30)` for `f` in `[0, 2^30)`, via `e^(f ln 2)`.
pub open spec fn exp2_frac(f: int) -> int
    recommends
        0 <= f < FIXED_ONE as int,
{
    exp_poly(q_mul(f, LN2_Q as int))
}

/// `10^(x / 2^30)` in Q30: split `x * log2(10)` into integer and fractional
/// parts, take `2^frac` by the series and shift by the integer part.
pub open spec fn q_pow10(x: int) -> int
    recommends
        -8 * (FIXED_ONE as int) <= x <= 8 * (FIXED_ONE as int),
{
    let z = q_mul(x, LOG2_10_Q as int);
    let n = z / (FIXED_ONE as int);
    let f = z % (FIXED_ONE as int);
    pow2_scale(exp2_frac(f), n)
}

/// A product of nonnegative values is nonnegative.
pub proof fn lemma_q_mul_nonneg(a: int, b: int)
    requires
        a >= 0,
        b >= 0,
    ensures
        q_mul(a, b) >= 0,
{
    assert(a * b >= 0) by (nonlinear_arith)
        requires
            a >= 0,
            b >= 0,
    ;
}

/// Multiplying by a factor of magnitude at most one does not grow the
/// magnitude.
pub proof fn lemma_q_mul_unit_bound(a: int, b: int)
    requires
        abs(b) <= FIXED_ONE as int,
        abs(a) <= i64::MAX as int,
    ensures
        abs(q_mul(a, b)) <= abs(a),
        abs(q_mul(b, a)) <= abs(a),
{
    assert(abs(a * b) == abs(a) * abs(b)) by (nonlinear_arith);
    assert(a * b == b * a);
    assert(abs(a) * abs(b) <= abs(a) * (FIXED_ONE as int)) by (nonlinear_arith)
        requires
            abs(b) <= FIXED_ONE as int,
    ;
    lemma_div_is_ordered((abs(a) * abs(b)) as int, abs(a) * (FIXED_ONE as int), FIXED_ONE as int);
    assert(abs(a) * (FIXED_ONE as int) / (FIXED_ONE as int) == abs(a))
        by (nonlinear_arith)
        requires
            FIXED_ONE == 1073741824,
    ;
}

/// Splits `z` into `(z div 2^30, z mod 2^30)` with a nonnegative remainder.
fn floor_split(z: i64) -> (r: (i64, i64))
    requires
        -36028797018963968 <= z <= 36028797018963968,
    ensures
        r.0 as int == (z as int) / (FIXED_ONE as int),
        r.1 as int == (z as int) % (FIXED_ONE as int),
{
    if z >= 0 {
        let n: u64 = (z as u64) / (FIXED_ONE as u64);
        let f: u64 = (z as u64) % (FIXED_ONE as u64);
        (n as i64, f as i64)
    } else {
        let m: u64 = (-z) as u64;
        let qm: u64 = m / (FIXED_ONE as u64);
        let rm: u64 = m % (FIXED_ONE as u64);
        proof {
            vstd::arithmetic::div_mod::lemma_fundamental_div_mod(m as int, FIXED_ONE as int);
        }
        if rm == 0 {
            proof {
                lemma_fundamental_div_mod_converse(z as int, FIXED_ONE as int, -(qm as int), 0);
            }
            (-(qm as i64), 0)
        } else {
            proof {
                lemma_fundamental_div_mod_converse(
                    z as int,
                    FIXED_ONE as int,
                    -(qm as int) - 1,
                    (FIXED_ONE as int) - rm,
                );
            }
            (-(qm as i64) - 1, FIXED_ONE - (rm as i64))
        }
    }
}

/// `e^w` on `[0, ln 2)` in Q30.
fn fexp_poly(w: i64) -> (r: i64)
    requires
        0 <= w <= FIXED_ONE,
    ensures
        r as int == exp_poly(w as int),
        FIXED_ONE <= r <= 3 * FIXED_ONE,
{
    let a9 = fadd(EXP_C9, fmul(w, EXP_C10));
    let a8 = fadd(EXP_C8, fmul(w, a9));
    let a7 = fadd(EXP_C7, fmul(w, a8));
    let a6 = fadd(EXP_C6, fmul(w, a7));
    let a5 = fadd(EXP_C5, fmul(w, a6));
    let a4 = fadd(EXP_C4, fmul(w, a5));
    let a3 = fadd(EXP_C3, fmul(w, a4));
    let a2 = fadd(EXP_C2, fmul(w, a3));
    let a1 = fadd(FIXED_ONE, fmul(w, a2));
    proof {
        lemma_q_mul_nonneg(w as int, EXP_C10 as int);
        lemma_q_mul_nonneg(w as int, a9 as int);
        lemma_q_mul_nonneg(w as int, a8 as int);
        lemma_q_mul_nonneg(w as int, a7 as int);
        lemma_q_mul_nonneg(w as int, a6 as int);
        lemma_q_mul_nonneg(w as int, a5 as int);
        lemma_q_mul_nonneg(w as int, a4 as int);
        lemma_q_mul_nonneg(w as int, a3 as int);
        lemma_q_mul_nonneg(w as int, a2 as int);
        lemma_q_mul_nonneg(w as int, a1 as int);
        lemma_q_mul_unit_bound(a9 as int, w as int);
        lemma_q_mul_unit_bound(a8 as int, w as int);
        lemma_q_mul_unit_bound(a7 as int, w as int);
        lemma_q_mul_unit_bound(a6 as int, w as int);
        lemma_q_mul_unit_bound(a5 as int, w as int);
        lemma_q_mul_unit_bound(a4 as int, w as int);
        lemma_q_mul_unit_bound(a3 as int, w as int);
        lemma_q_mul_unit_bound(a2 as int, w as int);
        lemma_q_mul_unit_bound(a1 as int, w as int);
        lemma_q_mul_unit_bound(EXP_C10 as int, w as int);
        assert(a9 as int <= EXP_C9 + EXP_C10);
        assert(a8 as int <= EXP_C8 + a9);
        assert(a7 as int <= EXP_C7 + a8);
        assert(a6 as int <= EXP_C6 + a7);
        assert(a5 as int <= EXP_C5 + a6);
        assert(a4 as int <= EXP_C4 + a5);
        assert(a3 as int <= EXP_C3 + a4);
        assert(a2 as int <= EXP_C2 + a3);
        assert(a1 as int <= FIXED_ONE + a2);
    }
    fadd(FIXED_ONE, fmul(w, a1))
}

/// Scale a nonnegative value by `2^n`, saturating upward, flooring downward.
fn fpow2_scale(v: i64, n: i64) -> (r: i64)
    requires
        v >= 0,
        -64 <= n <= 64,
    ensures
        r as int == pow2_scale(v as int, n as int),
        r >= 0,
{
    if n >= 0 {
        let steps: u64 = n as u64;
        let mut acc: i64 = v;
        let mut i: u64 = 0;
        while i < steps
            invariant
                0 <= i <= steps,
                acc >= 0,
                double_n(acc as int, (steps - i) as nat) == double_n(v as int, steps as nat),
            decreases steps - i,
        {
            acc = fadd(acc, acc);
            i = i + 1;
        }
        acc
    } else {
        let steps: u64 = (-n) as u64;
        let mut acc: i64 = v;
        let mut i: u64 = 0;
        while i < steps
            invariant
                0 <= i <= steps,
                acc >= 0,
                halve_n(acc as int, (steps - i) as nat) == halve_n(v as int, steps as nat),
            decreases steps - i,
        {
            acc = ((acc as u64) / 2) as i64;
            i = i + 1;
        }
        acc
    }
}

/// Fixed-point 1 / ln 2.
pub const INV_LN2_Q: i64 = 1549082005;

/// Fixed-point `20 * log10(2)`, the decibel weight of one octave.
pub const DB_PER_OCTAVE_Q: i64 = 6464569932;

/// Series coefficients 1/3, 1/5, ..., 1/11 of `atanh`, in Q30.
pub const ATANH_C3: i64 = 357913941;

pub const ATANH_C5: i64 = 214748365;

pub const ATANH_C7: i64 = 153391689;

pub const ATANH_C9: i64 = 119304647;

pub const ATANH_C11: i64 = 97612893;

/// Double a mantissa until it reaches one, counting the halved exponent
/// down.
pub open spec fn norm_up(m: int, e: int) -> (int, int)
    recommends
        m >= 1,
    decreases vstd::math::max(0, FIXED_ONE - m),
        when 1 <= m
{
    if m < FIXED_ONE as int {
        norm_up(2 * m, e - 1)
    } else {
        (m, e)
    }
}

/// Halve a mantissa until it drops below two, counting the exponent up.
pub open spec fn norm_down(m: int, e: int) -> (int, int)
    recommends
        m >= 0,
    decreases m,
        when 0 <= m
{
    if m >= 2 * (FIXED_ONE as int) {
        norm_down(m / 2, e + 1)
    } else {
        (m, e)
    }
}

/// `atanh` on `[0, 1/3]` by its odd series in Q30 (Horner's rule).
pub open spec fn atanh_poly(t: int) -> int {
    let t2 = q_mul(t, t);
    let a9 = q_add(ATANH_C9 as int, q_mul(t2, ATANH_C11 as int));
    let a7 = q_add(ATANH_C7 as int, q_mul(t2, a9));
    let a5 = q_add(ATANH_C5 as int, q_mul(t2, a7));
    let a3 = q_add(ATANH_C3 as int, q_mul(t2, a5));
    q_mul(t, q_add(FIXED_ONE as int, q_mul(t2, a3)))
}

/// `20 * log10(v / 2^30)` in Q30 for positive `v`: normalize to a mantissa
/// in `[1, 2)`, take its logarithm through `atanh`, and weigh mantissa and
/// exponent in decibel.
pub open spec fn q_db(v: int) -> int
    recommends
        v >= 1,
{
    let me = norm_down(norm_up(v, 0).0, norm_up(v, 0).1);
    let m = me.0;
    let e = me.1;
    let t = q_div(m - FIXED_ONE as int, m + FIXED_ONE as int);
    let log2m = q_mul(q_add(atanh_poly(t), atanh_poly(t)), INV_LN2_Q as int);
    q_mul(q_add(e * (FIXED_ONE as int), log2m), DB_PER_OCTAVE_Q as int)
}

/// `20 * log10(v)` of a positive Q30 value; the decibel level of a linear
/// amplitude.
pub fn fdb(v: i64) -> (r: i64)
    requires
        v >= 1,
    ensures
        r as int == q_db(v as int),
{
    proof {
        lemma2_to64();
        vstd::arithmetic::power2::lemma2_to64_rest();
    }
    let mut m: i64 = v;
    let mut e: i64 = 0;
    while m < FIXED_ONE
        invariant
            1 <= m,
            -30 <= e <= 0,
            m as int >= pow2((0 - e) as nat),
            m < 2 * FIXED_ONE || e == 0,
            e == 0 ==> m == v,
            norm_up(m as int, e as int) == norm_up(v as int, 0),
        decreases vstd::math::max(0, FIXED_ONE as int - m as int),
    {
        proof {
            assert(pow2(30) == 0x4000_0000) by {
                lemma2_to64();
            }
            if 0 - e >= 30 {
                if 0 - e > 30 {
                    vstd::arithmetic::power2::lemma_pow2_strictly_increases(
                        30nat,
                        (0 - e) as nat,
                    );
                }
                assert(false);
            }
            vstd::arithmetic::power2::lemma_pow2_unfold((0 - e + 1) as nat);
        }
        m = m * 2;
        e = e - 1;
    }
    proof {
        if e >= 0 {
            assert(m == v);
            assert(pow2(0) == 1) by {
                lemma2_to64();
            }
        }
    }
    while m >= 2 * FIXED_ONE
        invariant
            FIXED_ONE <= m,
            m < 2 * FIXED_ONE || e >= 0,
            e >= 0 ==> (m as int) * pow2(e as nat) <= 0x8000_0000_0000_0000int,
            -30 <= e <= 33,
            norm_down(m as int, e as int) == norm_down(
                norm_up(v as int, 0).0,
                norm_up(v as int, 0).1,
            ),
        decreases m,
    {
        proof {
            assert(pow2(32) == 0x1_0000_0000) by {
                lemma2_to64();
                vstd::arithmetic::power2::lemma2_to64_rest();
            }
            vstd::arithmetic::power2::lemma_pow2_pos(e as nat);
            assert((m as int) * pow2(e as nat) >= 0x8000_0000int * pow2(e as nat))
                by (nonlinear_arith)
                requires
                    m as int >= 0x8000_0000int,
                    pow2(e as nat) >= 1,
            ;
            if e >= 33 {
                vstd::arithmetic::power2::lemma_pow2_strictly_increases(32nat, e as nat);
                assert(0x8000_0000int * pow2(e as nat) > 0x8000_0000int * 0x1_0000_0000int)
                    by (nonlinear_arith)
                    requires
                        pow2(e as nat) > 0x1_0000_0000int,
                ;
                assert(false);
            }
            vstd::arithmetic::power2::lemma_pow2_unfold((e + 1) as nat);
            assert(((m as int) / 2) * (2 * pow2(e as nat)) <= (m as int) * pow2(e as nat))
                by (nonlinear_arith)
                requires
                    pow2(e as nat) >= 1,
                    m as int >= 0,
            ;
        }
        m = ((m as u64) / 2) as i64;
        e = e + 1;
    }
    let t = fdiv(m - FIXED_ONE, m + FIXED_ONE);
    let t2 = fmul(t, t);
    let a9 = fadd(ATANH_C9, fmul(t2, ATANH_C11));
    let a7 = fadd(ATANH_C7, fmul(t2, a9));
    let a5 = fadd(ATANH_C5, fmul(t2, a7));
    let a3 = fadd(ATANH_C3, fmul(t2, a5));
    let at = fmul(t, fadd(FIXED_ONE, fmul(t2, a3)));
    let log2m = fmul(fadd(at, at), INV_LN2_Q);
    fmul(fadd(e * FIXED_ONE, log2m), DB_PER_OCTAVE_Q)
}

/// Fixed-point `10^(x / 2^30)` for exponents of magnitude at most 8.
/// The result is at least 1 (one Q30 unit), so it can serve as a divisor.
pub fn fpow10(x: i64) -> (r: i64)
    requires
        -8 * FIXED_ONE <= x <= 8 * FIXED_ONE,
    ensures
        r as int == q_pow10(x as int),
        r >= 1,
        x <= 2 * FIXED_ONE ==> r <= 1024 * FIXED_ONE,
{
    let z = fmul(x, LOG2_10_Q);
    proof {
        assert(abs((x as int) * (LOG2_10_Q as int)) <= 8 * (FIXED_ONE as int) * (
        LOG2_10_Q as int)) by (nonlinear_arith)
            requires
                abs(x as int) <= 8 * (FIXED_ONE as int),
        ;
        lemma_div_is_ordered(
            abs((x as int) * (LOG2_10_Q as int)) as int,
            8 * (FIXED_ONE as int) * (LOG2_10_Q as int),
            FIXED_ONE as int,
        );
        assert(8 * (FIXED_ONE as int) * (LOG2_10_Q as int) / (FIXED_ONE as int) == 8 * (
        LOG2_10_Q as int)) by (nonlinear_arith)
            requires
                FIXED_ONE == 1073741824,
                LOG2_10_Q == 3566893132,
        ;
    }
    proof {
        if x <= 2 * FIXED_ONE {
            assert((x as int) * (LOG2_10_Q as int) <= 2 * (FIXED_ONE as int) * (LOG2_10_Q as int))
                by (nonlinear_arith)
                requires
                    x as int <= 2 * (FIXED_ONE as int),
                    LOG2_10_Q == 3566893132,
            ;
            if (x as int) * (LOG2_10_Q as int) >= 0 {
                lemma_div_is_ordered(
                    (x as int) * (LOG2_10_Q as int),
                    2 * (FIXED_ONE as int) * (LOG2_10_Q as int),
                    FIXED_ONE as int,
                );
                assert(2 * (FIXED_ONE as int) * (LOG2_10_Q as int) / (FIXED_ONE as int) == 2 * (
                LOG2_10_Q as int)) by (nonlinear_arith)
                    requires
                        FIXED_ONE == 1073741824,
                        LOG2_10_Q == 3566893132,
                ;
            }
            assert(z as int <= 2 * (LOG2_10_Q as int));
        }
    }
    let nf = floor_split(z);
    let n = nf.0;
    let f = nf.1;
    proof {
        lemma_q_mul_nonneg(f as int, LN2_Q as int);
        lemma_q_mul_unit_bound(LN2_Q as int, f as int);
    }
    let base = fexp_poly(fmul(f, LN2_Q));
    proof {
        lemma2_to64();
        if x <= 2 * FIXED_ONE {
            assert(z as int <= 7 * (FIXED_ONE as int) - 1);
            lemma_fundamental_div_mod_converse(
                7 * (FIXED_ONE as int) - 1,
                FIXED_ONE as int,
                6,
                (FIXED_ONE as int) - 1,
            );
            lemma_div_is_ordered(z as int, 7 * (FIXED_ONE as int) - 1, FIXED_ONE as int);
            assert(n as int <= 6);
            if n >= 0 {
                lemma_double_le(base as int, n as nat);
                if (n as nat) < 6 {
                    vstd::arithmetic::power2::lemma_pow2_strictly_increases(n as nat, 6);
                }
                assert(pow2(n as nat) * (base as int) <= 64 * (base as int)) by (nonlinear_arith)
                    requires
                        pow2(n as nat) <= 64,
                        base as int >= 0,
                ;
            } else {
                lemma_halve_le(base as int, (-(n as int)) as nat);
            }
        }
        if n < 0 {
            assert(base >= pow2(27)) by {
                assert(pow2(27) == 134217728);
            }
            assert((-(n as int)) as nat <= 27);
            vstd::arithmetic::power2::lemma_pow2_adds(((-(n as int)) as nat),
                (27 - (-(n as int))) as nat);
            vstd::arithmetic::power2::lemma_pow2_pos((27 - (-(n as int))) as nat);
            assert(pow2((-(n as int)) as nat) <= pow2(27)) by (nonlinear_arith)
                requires
                    pow2(27) == pow2((-(n as int)) as nat) * pow2((27 - (-(n as int))) as nat),
                    pow2((27 - (-(n as int))) as nat) >= 1,
                    pow2((-(n as int)) as nat) >= 0,
            ;
            lemma_halve_pos(base as int, (-(n as int)) as nat);
        } else {
            lemma_double_ge(base as int, n as nat);
        }
    }
    fpow2_scale(base, n)
}

} // verus!

