use camilladsp::biquad::{Biquad, BiquadCoefficients, BiquadParameters};
use camilladsp::fixed::FIXED_ONE;
use num_complex::Complex;

fn q(x: f64) -> i64 {
    (x * FIXED_ONE as f64).round() as i64
}

fn fl(v: i64) -> f64 {
    v as f64 / FIXED_ONE as f64
}

fn is_close(left: f64, right: f64, maxdiff: f64) -> bool {
    println!("{} - {}", left, right);
    (left - right).abs() < maxdiff
}

fn compare_waveforms(left: Vec<f64>, right: Vec<f64>, maxdiff: f64) -> bool {
    for (val_l, val_r) in left.iter().zip(right.iter()) {
        if !is_close(*val_l, *val_r, maxdiff) {
            return false;
        }
    }
    true
}

fn gain_and_phase(coeffs: &BiquadCoefficients, f: f64, fs: usize) -> (f64, f64) {
    let pi = std::f64::consts::PI;
    let z = (Complex::i() * 2.0 * pi * f / (fs as f64)).exp();
    let a = (fl(coeffs.b0) + fl(coeffs.b1) * z.powi(-1) + fl(coeffs.b2) * z.powi(-2))
        / (1.0 + fl(coeffs.a1) * z.powi(-1) + fl(coeffs.a2) * z.powi(-2));
    let (magn, ang) = a.to_polar();
    let gain = 20.0 * magn.log10();
    let phase = 180.0 / pi * ang;
    (gain, phase)
}

#[test]
fn check_result() {
    let conf = BiquadParameters::Lowpass {
        freq: q(10000.0),
        q: q(0.5),
    };
    let coeffs = BiquadCoefficients::from_config(44100, conf);
    let mut wave: Vec<i64> = vec![q(1.0), 0, 0, 0, 0, 0, 0, 0];
    let expected = vec![0.215, 0.461, 0.281, 0.039, 0.004, 0.0, 0.0, 0.0];
    let mut filter = Biquad::new(coeffs);
    filter.process_waveform(&mut wave).unwrap();
    let wave_f: Vec<f64> = wave.iter().map(|s| fl(*s)).collect();
    assert!(compare_waveforms(wave_f, expected, 1e-3));
}

#[test]
fn make_lowpass() {
    let conf = BiquadParameters::Lowpass {
        freq: q(100.0),
        q: q(0.707),
    };
    let coeffs = BiquadCoefficients::from_config(44100, conf);
    let (gain_f0, _) = gain_and_phase(&coeffs, 100.0, 44100);
    let (gain_hf, _) = gain_and_phase(&coeffs, 400.0, 44100);
    let (gain_lf, _) = gain_and_phase(&coeffs, 10.0, 44100);
    assert!(is_close(gain_f0, -3.0, 0.1));
    assert!(is_close(gain_lf, 0.0, 0.1));
    assert!(is_close(gain_hf, -24.0, 0.2));
}

#[test]
fn make_highpass() {
    let conf = BiquadParameters::Highpass {
        freq: q(100.0),
        q: q(0.707),
    };
    let coeffs = BiquadCoefficients::from_config(44100, conf);
    let (gain_f0, _) = gain_and_phase(&coeffs, 100.0, 44100);
    let (gain_hf, _) = gain_and_phase(&coeffs, 400.0, 44100);
    let (gain_lf, _) = gain_and_phase(&coeffs, 25.0, 44100);
    assert!(is_close(gain_f0, -3.0, 0.1));
    assert!(is_close(gain_lf, -24.0, 0.2));
    assert!(is_close(gain_hf, 0.0, 0.1));
}

#[test]
fn make_peaking() {
    let conf = BiquadParameters::Peaking {
        freq: q(100.0),
        gain: q(7.0),
        q: q(3.0),
    };
    let coeffs = BiquadCoefficients::from_config(44100, conf);
    let (gain_f0, _) = gain_and_phase(&coeffs, 100.0, 44100);
    let (gain_hf, _) = gain_and_phase(&coeffs, 400.0, 44100);
    let (gain_lf, _) = gain_and_phase(&coeffs, 25.0, 44100);
    assert!(is_close(gain_f0, 7.0, 0.1));
    assert!(is_close(gain_lf, 0.0, 0.1));
    assert!(is_close(gain_hf, 0.0, 0.1));
}

#[test]
fn make_highshelf() {
    let conf = BiquadParameters::Highshelf {
        freq: q(100.0),
        slope: q(6.0),
        gain: q(-24.0),
    };
    let coeffs = BiquadCoefficients::from_config(44100, conf);
    let (gain_f0, _) = gain_and_phase(&coeffs, 100.0, 44100);
    let (gain_f0h, _) = gain_and_phase(&coeffs, 200.0, 44100);
    let (gain_f0l, _) = gain_and_phase(&coeffs, 50.0, 44100);
    let (gain_hf, _) = gain_and_phase(&coeffs, 10000.0, 44100);
    let (gain_lf, _) = gain_and_phase(&coeffs, 1.0, 44100);
    assert!(is_close(gain_f0, -12.0, 0.1));
    assert!(is_close(gain_f0h, -18.0, 1.0));
    assert!(is_close(gain_f0l, -6.0, 1.0));
    assert!(is_close(gain_lf, 0.0, 0.1));
    assert!(is_close(gain_hf, -24.0, 0.1));
}

#[test]
fn make_lowshelf() {
    let conf = BiquadParameters::Lowshelf {
        freq: q(100.0),
        slope: q(6.0),
        gain: q(-24.0),
    };
    let coeffs = BiquadCoefficients::from_config(44100, conf);
    let (gain_f0, _) = gain_and_phase(&coeffs, 100.0, 44100);
    let (gain_f0h, _) = gain_and_phase(&coeffs, 200.0, 44100);
    let (gain_f0l, _) = gain_and_phase(&coeffs, 50.0, 44100);
    let (gain_hf, _) = gain_and_phase(&coeffs, 10000.0, 44100);
    let (gain_lf, _) = gain_and_phase(&coeffs, 1.0, 44100);
    assert!(is_close(gain_f0, -12.0, 0.1));
    assert!(is_close(gain_f0h, -6.0, 1.0));
    assert!(is_close(gain_f0l, -18.0, 1.0));
    assert!(is_close(gain_lf, -24.0, 0.1));
    assert!(is_close(gain_hf, -0.0, 0.1));
}

#[test]
fn normalize_by_one_is_identity() {
    let c = BiquadCoefficients::normalize(FIXED_ONE, q(-1.6), q(0.64), q(0.25), q(0.5), q(0.25));
    assert_eq!(c.a1, q(-1.6));
    assert_eq!(c.a2, q(0.64));
    assert_eq!(c.b0, q(0.25));
    assert_eq!(c.b1, q(0.5));
    assert_eq!(c.b2, q(0.25));
}

#[test]
fn normalize_divides_by_a0() {
    let c = BiquadCoefficients::normalize(q(2.0), q(1.0), q(0.5), q(1.0), q(-1.0), q(0.25));
    assert!(is_close(fl(c.a1), 0.5, 1e-9));
    assert!(is_close(fl(c.a2), 0.25, 1e-9));
    assert!(is_close(fl(c.b0), 0.5, 1e-9));
    assert!(is_close(fl(c.b1), -0.5, 1e-9));
    assert!(is_close(fl(c.b2), 0.125, 1e-9));
}

#[test]
fn free_coefficients_pass_through() {
    let conf = BiquadParameters::Free {
        a1: q(-1.2),
        a2: q(0.5),
        b0: q(0.3),
        b1: q(0.1),
        b2: q(-0.2),
    };
    let coeffs = BiquadCoefficients::from_config(48000, conf);
    assert_eq!(coeffs.a1, q(-1.2));
    assert_eq!(coeffs.a2, q(0.5));
    assert_eq!(coeffs.b0, q(0.3));
    assert_eq!(coeffs.b1, q(0.1));
    assert_eq!(coeffs.b2, q(-0.2));
}

#[test]
fn kernel_keeps_delay_state_across_calls() {
    let coeffs = BiquadCoefficients::from_config(
        44100,
        BiquadParameters::Lowpass {
            freq: q(10000.0),
            q: q(0.5),
        },
    );
    let mut one_shot = Biquad::new(coeffs);
    let mut wave: Vec<i64> = vec![q(1.0), 0, 0, 0];
    one_shot.process_waveform(&mut wave).unwrap();

    let mut split = Biquad::new(coeffs);
    let mut head: Vec<i64> = vec![q(1.0), 0];
    let mut tail: Vec<i64> = vec![0, 0];
    split.process_waveform(&mut head).unwrap();
    split.process_waveform(&mut tail).unwrap();
    assert_eq!(wave[0], head[0]);
    assert_eq!(wave[1], head[1]);
    assert_eq!(wave[2], tail[0]);
    assert_eq!(wave[3], tail[1]);
}
