use camilladsp::countertimer::{
    measured_rate, Averager, SilenceCounter, Stopwatch, TimeAverage, ValueWatcher,
};
use camilladsp::device::{
    capture_buffer_frames, channel_check_limit, classify_rates, list_formats_from_probe,
    playback_start_threshold, requested_buffer_size, requested_period_size, standard_rates,
    SupportedValues,
};
use camilladsp::fixed::FIXED_ONE;
use camilladsp::{list_supported_devices, ProcessingState, SampleFormat};

fn q(x: f64) -> i64 {
    (x * FIXED_ONE as f64).round() as i64
}

#[test]
fn stopwatch_measures_elapsed_time() {
    let mut sw = Stopwatch::new(100);
    assert!(!sw.larger_than_millis(100, 50));
    assert!(!sw.larger_than_millis(150, 50));
    assert!(sw.larger_than_millis(151, 50));
    sw.restart(200);
    assert!(!sw.larger_than_millis(220, 50));
}

#[test]
fn averager_takes_exact_means() {
    let mut avg = Averager::new();
    assert!(avg.get_average().is_none());
    avg.add_value(3);
    avg.add_value(5);
    assert_eq!(avg.get_average(), Some(4));
    avg.restart();
    avg.add_value(-3);
    avg.add_value(-4);
    assert_eq!(avg.get_average(), Some(-3));
}

#[test]
fn time_average_gives_bytes_per_second() {
    let mut ta = TimeAverage::new(0);
    ta.add_value(176400);
    ta.add_value(176400);
    assert!(ta.larger_than_millis(1001, 1000));
    assert_eq!(ta.get_average(1000), 352800);
    ta.restart(1000);
    assert_eq!(ta.sum, 0);
}

#[test]
fn measured_rate_divides_into_frames() {
    assert_eq!(measured_rate(384000, 2, 4), 48000);
    assert_eq!(measured_rate(352800, 2, 4), 44100);
}

#[test]
fn value_watcher_needs_consecutive_deviations() {
    let mut w = ValueWatcher::new(48000, q(0.04), 3);
    assert!(!w.check_value(44100));
    assert!(!w.check_value(44100));
    assert!(w.check_value(44100));
    assert!(w.check_value(44100));
    assert!(!w.check_value(48000));
    assert!(!w.check_value(44100));
    assert!(!w.check_value(48100));
    assert!(!w.check_value(47000));
}

#[test]
fn silence_counter_waits_for_the_timeout() {
    let mut sc = SilenceCounter::new(q(-50.0), 500, 48000, 1024);
    assert_eq!(sc.limit, 23);
    let quiet = q(0.001);
    let loud = q(0.01);
    for _ in 0..22 {
        assert_eq!(sc.update(quiet), ProcessingState::Running);
    }
    assert_eq!(sc.update(quiet), ProcessingState::Paused);
    assert_eq!(sc.update(quiet), ProcessingState::Paused);
    assert_eq!(sc.update(loud), ProcessingState::Running);
}

#[test]
fn supported_devices_include_the_alsa_backend() {
    let (playback, capture) = list_supported_devices();
    assert_eq!(playback, vec!["File", "Stdout", "Alsa"]);
    assert_eq!(capture, vec!["File", "Stdin", "Alsa"]);
}

#[test]
fn processing_state_names() {
    assert_eq!(ProcessingState::Running.as_text(), "RUNNING");
    assert_eq!(ProcessingState::Paused.as_text(), "PAUSED");
    assert_eq!(ProcessingState::Inactive.as_text(), "INACTIVE");
    assert_eq!(ProcessingState::Starting.as_text(), "STARTING");
}

#[test]
fn sample_format_byte_widths() {
    assert_eq!(SampleFormat::S16LE.bytes_per_sample(), 2);
    assert_eq!(SampleFormat::S24LE.bytes_per_sample(), 4);
    assert_eq!(SampleFormat::S24LE3.bytes_per_sample(), 3);
    assert_eq!(SampleFormat::S32LE.bytes_per_sample(), 4);
    assert_eq!(SampleFormat::FLOAT32LE.bytes_per_sample(), 4);
    assert_eq!(SampleFormat::FLOAT64LE.bytes_per_sample(), 8);
}

#[test]
fn rate_classification_follows_the_probes() {
    let none = vec![false; 17];
    match classify_rates(44100, 44100, false, &none) {
        SupportedValues::Discrete(v) => assert_eq!(v, vec![44100]),
        _ => panic!("single rate must be discrete"),
    }
    match classify_rates(8000, 192000, true, &none) {
        SupportedValues::Range(lo, hi) => {
            assert_eq!(lo, 8000);
            assert_eq!(hi, 192000);
        }
        _ => panic!("contiguous support must be a range"),
    }
    let mut some = vec![false; 17];
    let all = standard_rates();
    for (i, rate) in all.iter().enumerate() {
        if *rate == 44100 || *rate == 48000 {
            some[i] = true;
        }
    }
    match classify_rates(8000, 192000, false, &some) {
        SupportedValues::Discrete(v) => assert_eq!(v, vec![44100, 48000]),
        _ => panic!("sparse support must be discrete"),
    }
}

#[test]
fn channel_probe_limit_caps_at_32() {
    assert_eq!(channel_check_limit(2), 2);
    assert_eq!(channel_check_limit(32), 32);
    assert_eq!(channel_check_limit(256), 32);
}

#[test]
fn format_list_follows_the_probes() {
    let flags = vec![true, false, false, true, true, false];
    let formats = list_formats_from_probe(&flags);
    assert_eq!(
        formats,
        vec![SampleFormat::S16LE, SampleFormat::S32LE, SampleFormat::FLOAT32LE]
    );
}

#[test]
fn capture_buffer_is_the_next_power_of_two() {
    // 1.2 * 1024 = 1228.8 frames, so the buffer must be 2048.
    assert_eq!(capture_buffer_frames(44100, 44100, 1024), 2048);
    // Resampling 2:1 doubles the demand: 2457.6 frames, so 4096.
    assert_eq!(capture_buffer_frames(96000, 48000, 1024), 4096);
    assert_eq!(capture_buffer_frames(48000, 48000, 512), 1024);
}

#[test]
fn open_parameters_follow_the_chunk_size() {
    assert_eq!(requested_buffer_size(1024), 2048);
    assert_eq!(requested_period_size(1024), 256);
    assert_eq!(playback_start_threshold(2048, 256), 768);
}
