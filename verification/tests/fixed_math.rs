use camilladsp::fixed::{
    fabs, fadd, fcos, fdb, fdiv, fmul, fneg, fpow10, fsin, fsqrt, fsub, half_pos, idiv, FIXED_ONE,
    FIXED_PI,
};

fn q(x: f64) -> i64 {
    (x * FIXED_ONE as f64).round() as i64
}

fn fl(v: i64) -> f64 {
    v as f64 / FIXED_ONE as f64
}

#[test]
fn add_sub_neg_abs_are_exact() {
    assert_eq!(fadd(q(1.5), q(0.25)), q(1.75));
    assert_eq!(fsub(q(1.5), q(0.25)), q(1.25));
    assert_eq!(fneg(q(-2.5)), q(2.5));
    assert_eq!(fabs(q(-2.5)), q(2.5));
}

#[test]
fn add_saturates_at_the_rails() {
    assert_eq!(fadd(i64::MAX, 1), i64::MAX);
    assert_eq!(fsub(i64::MIN, 1), i64::MIN);
    assert_eq!(fneg(i64::MIN), i64::MAX);
    assert_eq!(fabs(i64::MIN), i64::MAX);
}

#[test]
fn multiply_matches_reals() {
    assert!((fl(fmul(q(1.5), q(2.5))) - 3.75).abs() < 1e-8);
    assert!((fl(fmul(q(-0.3), q(0.7))) + 0.21).abs() < 1e-8);
    assert_eq!(fmul(i64::MAX, 4 * FIXED_ONE), i64::MAX);
}

#[test]
fn divide_matches_reals_and_truncates() {
    assert!((fl(fdiv(q(1.0), q(3.0))) - 1.0 / 3.0).abs() < 1e-8);
    assert!((fl(fdiv(q(-1.0), q(3.0))) + 1.0 / 3.0).abs() < 1e-8);
    assert_eq!(idiv(-7, 2), -3);
    assert_eq!(idiv(7, -2), -3);
    assert_eq!(idiv(7, 2), 3);
    assert_eq!(half_pos(7), 3);
}

#[test]
fn square_root_matches_reals() {
    assert!((fl(fsqrt(q(2.0))) - 2.0f64.sqrt()).abs() < 1e-4);
    assert!((fl(fsqrt(q(0.25))) - 0.5).abs() < 1e-4);
    assert_eq!(fsqrt(0), 0);
    assert_eq!(fsqrt(FIXED_ONE), FIXED_ONE);
}

#[test]
fn sine_and_cosine_match_reals() {
    for f in [0.0, 0.1, 0.5, 1.0, 1.5707963, 2.0, 3.0, 3.14159265] {
        let x = q(f).min(FIXED_PI);
        let want_sin = (x as f64 / FIXED_ONE as f64).sin();
        let want_cos = (x as f64 / FIXED_ONE as f64).cos();
        assert!((fl(fsin(x)) - want_sin).abs() < 1e-6, "sin at {}", f);
        assert!((fl(fcos(x)) - want_cos).abs() < 1e-6, "cos at {}", f);
    }
}

#[test]
fn power_of_ten_matches_reals() {
    for g in [-5.0, -2.5, -0.6, 0.0, 0.175, 0.6, 2.0] {
        let want = 10.0f64.powf(g);
        let got = fl(fpow10(q(g)));
        assert!(
            (got - want).abs() < 1e-6 * want.max(1.0),
            "10^{} = {} vs {}",
            g,
            got,
            want
        );
    }
}

#[test]
fn decibel_matches_reals() {
    for v in [0.001f64, 0.25, 0.5, 0.999, 1.0, 2.0, 1000.0] {
        let want = 20.0 * v.log10();
        let got = fl(fdb(q(v)));
        assert!((got - want).abs() < 1e-4, "db({}) = {} vs {}", v, got, want);
    }
}
