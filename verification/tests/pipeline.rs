use camilladsp::audiodevice::{AudioChunk, DeviceState};
use camilladsp::capture::{
    capture_wait_millis, classify_read_error, pre_read_action, whole_chunk_wait_millis,
    CaptureEngine, CaptureParams, CommandOutcome, PreReadAction, RateAlarm, RateControls,
    ReadErrorAction, ReadErrorKind, SpeedTarget,
};
use camilladsp::biquad::{Biquad, BiquadCoefficients};
use camilladsp::fixed::FIXED_ONE;
use camilladsp::playback::{
    add_clipped, calculate_speed, target_delay_millis, write_setup, PlaybackEngine, WriteSetup,
};
use camilladsp::{CommandMessage, PlaybackStatus, ProcessingState, SampleFormat, StatusMessage};

fn q(x: f64) -> i64 {
    (x * FIXED_ONE as f64).round() as i64
}

fn test_params(stop_on_rate_change: bool) -> CaptureParams {
    CaptureParams {
        channels: 2,
        sample_format: SampleFormat::S32LE,
        chunksize: 1024,
        store_bytes_per_sample: 4,
        samplerate: 48000,
        capture_samplerate: 48000,
        async_src: false,
        retry_on_error: true,
        avoid_blocking_read: false,
        stop_on_rate_change,
        rate_measure_interval_ms: 1000,
    }
}

fn fresh_engine(stop_on_rate_change: bool) -> CaptureEngine {
    CaptureEngine::new(test_params(stop_on_rate_change), q(-50.0), 500, 0)
}

fn empty_playback_status() -> PlaybackStatus {
    PlaybackStatus {
        update_interval: 1000,
        clipped_samples: 0,
        buffer_level: 0,
        signal_rms: Vec::new(),
        signal_peak: Vec::new(),
    }
}

#[test]
fn exit_propagation() {
    // Supervisor sends Exit: capture decides to send the sentinel and
    // CaptureDone; playback drains and reports done; nothing errors.
    let mut engine = fresh_engine(false);
    let controls = RateControls {
        has_rate_shift: false,
        has_pitch: false,
        has_resampler: false,
    };
    let outcome = engine.handle_command(Some(CommandMessage::Exit), controls);
    assert!(matches!(outcome, CommandOutcome::ExitNow));
    assert!(engine.done);
    assert!(engine.sent_eos);

    let mut playback = PlaybackEngine::new(2048, 1024, 1000, true, 48000, 0);
    let status = playback.on_end_of_stream();
    assert!(matches!(status, StatusMessage::PlaybackDone));
    assert!(playback.done);
}

#[test]
fn fatal_capture_error_sends_one_sentinel() {
    let mut engine = fresh_engine(false);
    let (status, send_eos) = engine.on_fatal_error("read failed".to_string());
    match status {
        StatusMessage::CaptureError(text) => assert_eq!(text, "read failed"),
        _ => panic!("a fatal error must surface as CaptureError"),
    }
    assert!(send_eos);
    assert!(engine.done);
    assert!(engine.sent_eos);
}

#[test]
fn clipped_counter_is_monotonic() {
    let mut status = empty_playback_status();
    let mut previous = 0;
    for clipped in [0, 3, 0, 17, 1] {
        add_clipped(&mut status, clipped);
        assert!(status.clipped_samples >= previous);
        previous = status.clipped_samples;
    }
    assert_eq!(status.clipped_samples, 21);
    status.clipped_samples = usize::MAX - 1;
    add_clipped(&mut status, 10);
    assert_eq!(status.clipped_samples, usize::MAX);
}

#[test]
fn speed_is_one_at_the_target() {
    assert_eq!(calculate_speed(2048, 2048, 1000, 48000), FIXED_ONE);
}

#[test]
fn speed_reacts_to_the_delay_error() {
    // 480 frames of error amortized over one second at 48 kHz: 1%.
    let fast = calculate_speed(2048 + 480, 2048, 1000, 48000);
    assert!((fast as f64 / FIXED_ONE as f64 - 1.01).abs() < 1e-6);
    let slow = calculate_speed(2048 - 480, 2048, 1000, 48000);
    assert!((slow as f64 / FIXED_ONE as f64 - 0.99).abs() < 1e-6);
}

#[test]
fn no_setspeed_when_adjust_disabled() {
    let mut playback = PlaybackEngine::new(2048, 1024, 1000, false, 48000, 0);
    for i in 0..5 {
        playback.on_delay_report(2048 + 100 * i);
    }
    let outcome = playback.check_adjust(5000);
    assert!(outcome.set_speed.is_none());
    assert!(outcome.buffer_level.is_some());
}

#[test]
fn no_setspeed_when_period_is_zero() {
    let mut playback = PlaybackEngine::new(2048, 1024, 0, true, 48000, 0);
    playback.on_delay_report(4096);
    let outcome = playback.check_adjust(10);
    assert!(outcome.set_speed.is_none());
}

#[test]
fn identity_pipeline_keeps_the_signal() {
    // A 1 kHz sine at 48 kHz, stereo, chunks of 1024 frames, ten seconds,
    // through an identity filter: the signal statistics do not move, no
    // sample clips, and the drift correction at the target level asks for
    // a speed of exactly one.
    let pi = std::f64::consts::PI;
    let identity = BiquadCoefficients::new(0, 0, FIXED_ONE, 0, 0);
    let mut filter_l = Biquad::new(identity);
    let mut filter_r = Biquad::new(identity);
    let mut playback = PlaybackEngine::new(2048, 1024, 1000, true, 48000, 0);
    let mut status = empty_playback_status();
    let mut now: u64 = 0;
    let mut source_rms_db = 0.0f64;
    let mut sink_rms_db = 0.0f64;
    for chunk_index in 0..468 {
        let mut wave: Vec<i64> = Vec::with_capacity(1024);
        for i in 0..1024 {
            let t = (chunk_index * 1024 + i) as f64 / 48000.0;
            wave.push(q(0.5 * (2.0 * pi * 1000.0 * t).sin()));
        }
        let chunk = AudioChunk::new(vec![wave.clone(), wave.clone()], q(0.5), q(-0.5), 1024, 1024);
        let stats_in = chunk.get_stats();
        let mut left = chunk.waveforms[0].clone();
        let mut right = chunk.waveforms[1].clone();
        filter_l.process_waveform(&mut left).unwrap();
        filter_r.process_waveform(&mut right).unwrap();
        let out_chunk = AudioChunk::new(vec![left, right], q(0.5), q(-0.5), 1024, 1024);
        let stats_out = out_chunk.get_stats();
        assert_eq!(stats_in.rms, stats_out.rms);
        assert_eq!(stats_in.peak, stats_out.peak);
        source_rms_db = stats_in.rms_db()[0] as f64 / FIXED_ONE as f64;
        sink_rms_db = stats_out.rms_db()[0] as f64 / FIXED_ONE as f64;
        add_clipped(&mut status, 0);
        playback.on_delay_report(2048);
        now += 21;
        let outcome = playback.check_adjust(now);
        if let Some(speed) = outcome.set_speed {
            assert_eq!(speed, FIXED_ONE);
        }
    }
    assert!((source_rms_db - sink_rms_db).abs() < 0.1);
    // RMS of a half-amplitude sine: 0.5 / sqrt(2), about -9.03 dB.
    assert!((source_rms_db - (-9.03)).abs() < 0.05);
    assert_eq!(status.clipped_samples, 0);
}

#[test]
fn drift_correction_converges() {
    // Source at 47990 Hz against a 48000 Hz sink: within 30 adjustment
    // periods the speed settles at the rate ratio and the buffer holds
    // near the target.
    let mut playback = PlaybackEngine::new(2048, 1024, 1000, true, 48000, 0);
    let mut level = 2048.0f64;
    let mut speed = 1.0f64;
    let mut now: u64 = 0;
    for _ in 0..30 {
        level += 47990.0 / speed - 48000.0;
        playback.on_delay_report(level.round() as i64);
        now += 1001;
        let outcome = playback.check_adjust(now);
        if let Some(s) = outcome.set_speed {
            speed = s as f64 / FIXED_ONE as f64;
        }
    }
    assert!(speed > 0.9995 && speed < 1.0005, "speed {}", speed);
    assert!((level - 2048.0).abs() <= 204.8, "level {}", level);
}

#[test]
fn xrun_recovery_continues_without_error() {
    // A playback underrun asks for a prepare and a refill wait, never an
    // error; a capture overrun with retries on asks for one re-read.
    let td = target_delay_millis(2048, 48000);
    assert_eq!(td, 42);
    assert!(matches!(
        write_setup(DeviceState::XRun, td),
        WriteSetup::PrepareAndWait(42)
    ));
    assert!(matches!(
        write_setup(DeviceState::Prepared, td),
        WriteSetup::WaitOnly(42)
    ));
    assert!(matches!(
        write_setup(DeviceState::Running, td),
        WriteSetup::GoAhead
    ));
    assert!(matches!(
        classify_read_error(ReadErrorKind::Overrun, true),
        ReadErrorAction::PrepareAndReread
    ));
    assert!(matches!(
        classify_read_error(ReadErrorKind::Overrun, false),
        ReadErrorAction::Fatal
    ));
    assert!(matches!(
        classify_read_error(ReadErrorKind::Interrupted, true),
        ReadErrorAction::TreatAsRecoverable
    ));
    assert!(matches!(
        classify_read_error(ReadErrorKind::Interrupted, false),
        ReadErrorAction::Fatal
    ));
    assert!(matches!(
        classify_read_error(ReadErrorKind::AvailQueryFailed, true),
        ReadErrorAction::TreatAsRecoverable
    ));
    assert!(matches!(
        classify_read_error(ReadErrorKind::Other, true),
        ReadErrorAction::Fatal
    ));
    assert!(matches!(pre_read_action(DeviceState::XRun), PreReadAction::Prepare));
    assert!(matches!(pre_read_action(DeviceState::Other), PreReadAction::Start));
    assert!(matches!(pre_read_action(DeviceState::Running), PreReadAction::Proceed));
}

#[test]
fn capture_wait_times() {
    assert_eq!(capture_wait_millis(1124, 1124, 44100), None);
    // 1024 frames missing at 44100 Hz: 1 + 1100*1024/44100 ms.
    assert_eq!(capture_wait_millis(100, 1124, 44100), Some(26));
    assert_eq!(whole_chunk_wait_millis(1024, 48000), 21);
}

#[test]
fn silence_gating_pauses_and_resumes() {
    // A signal below -50 dB for half a second pauses the pipeline; no
    // chunk is forwarded while paused; the first loud chunk resumes.
    let mut engine = fresh_engine(false);
    let quiet = q(0.001);
    let loud = q(0.01);
    for i in 0..23 {
        let (state, forward) = engine.update_state(quiet, false);
        if i < 22 {
            assert_eq!(state, ProcessingState::Running);
            assert!(forward);
        } else {
            assert_eq!(state, ProcessingState::Paused);
            assert!(!forward);
        }
    }
    let (state, forward) = engine.update_state(quiet, false);
    assert_eq!(state, ProcessingState::Paused);
    assert!(!forward);
    let (state, forward) = engine.update_state(loud, false);
    assert_eq!(state, ProcessingState::Running);
    assert!(forward);
    // A recoverable read error pauses outright.
    let (state, forward) = engine.update_state(loud, true);
    assert_eq!(state, ProcessingState::Paused);
    assert!(!forward);
}

#[test]
fn sustained_rate_change_warns_but_continues() {
    // stop_on_rate_change = false: a sustained deviation produces warnings
    // and never terminates the engine.
    let mut engine = fresh_engine(false);
    let mut now: u64 = 0;
    let mut warned = false;
    for _ in 0..5 {
        // One second of data at 44100 Hz in 2ch x 4B frames.
        engine.account_bytes(44100 * 8);
        now += 1001;
        match engine.check_rate_watch(now) {
            RateAlarm::FormatChange(_) => panic!("must not stop when not asked to"),
            RateAlarm::Warn(rate) => {
                warned = true;
                assert!((rate as i64 - 44100).abs() < 100);
            }
            RateAlarm::NoAlarm => {}
        }
        assert!(!engine.done);
        assert!(!engine.sent_eos);
    }
    assert!(warned);
}

#[test]
fn format_change_stops_when_asked() {
    // stop_on_rate_change = true: after the configured run of deviating
    // windows the engine reports the format change and shuts down.
    let mut engine = fresh_engine(true);
    let mut now: u64 = 0;
    let mut changed_rate = None;
    for _ in 0..5 {
        if engine.done {
            break;
        }
        engine.account_bytes(44100 * 8);
        now += 1001;
        if let RateAlarm::FormatChange(rate) = engine.check_rate_watch(now) {
            changed_rate = Some(rate);
            break;
        }
    }
    let rate = changed_rate.expect("the rate change must be reported");
    assert!((rate as i64 - 44100).abs() < 100);
    assert!(engine.done);
    assert!(engine.sent_eos);
}

#[test]
fn speed_commands_follow_the_strict_priority() {
    let all = RateControls {
        has_rate_shift: true,
        has_pitch: true,
        has_resampler: true,
    };
    let pitch_only = RateControls {
        has_rate_shift: false,
        has_pitch: true,
        has_resampler: true,
    };
    let resampler_only = RateControls {
        has_rate_shift: false,
        has_pitch: false,
        has_resampler: true,
    };
    let resampler_only_again = RateControls {
        has_rate_shift: false,
        has_pitch: false,
        has_resampler: true,
    };
    let mut engine = fresh_engine(false);
    match engine.handle_command(Some(CommandMessage::SetSpeed { speed: FIXED_ONE }), all) {
        CommandOutcome::Adjust(SpeedTarget::RateShift(v)) => assert_eq!(v, 100000),
        _ => panic!("the hardware control has priority"),
    }
    match engine.handle_command(Some(CommandMessage::SetSpeed { speed: FIXED_ONE }), pitch_only) {
        CommandOutcome::Adjust(SpeedTarget::Pitch(v)) => assert_eq!(v, 1000000),
        _ => panic!("the pitch control comes second"),
    }
    // A synchronous resampler ignores rate adjust.
    match engine.handle_command(
        Some(CommandMessage::SetSpeed { speed: FIXED_ONE }),
        resampler_only,
    ) {
        CommandOutcome::Adjust(SpeedTarget::NoTarget) => {}
        _ => panic!("a synchronous resampler must not receive the adjustment"),
    }
    assert_eq!(engine.rate_adjust, FIXED_ONE);
    assert!(!engine.done);

    // With an asynchronous resampler installed, it is the third target.
    let mut async_params = test_params(false);
    async_params.async_src = true;
    let mut async_engine = CaptureEngine::new(async_params, q(-50.0), 500, 0);
    match async_engine.handle_command(
        Some(CommandMessage::SetSpeed { speed: FIXED_ONE }),
        resampler_only_again,
    ) {
        CommandOutcome::Adjust(SpeedTarget::ResamplerRatio(v)) => assert_eq!(v, FIXED_ONE),
        _ => panic!("an asynchronous resampler receives the adjustment"),
    }
}

#[test]
fn rate_shift_value_rounds_the_quotient() {
    let mut engine = fresh_engine(false);
    let shift_only = RateControls {
        has_rate_shift: true,
        has_pitch: false,
        has_resampler: false,
    };
    match engine.handle_command(
        Some(CommandMessage::SetSpeed { speed: q(0.999) }),
        shift_only,
    ) {
        CommandOutcome::Adjust(SpeedTarget::RateShift(v)) => {
            assert!((v - 100100).abs() <= 1, "shift {}", v);
        }
        _ => panic!("the hardware control has priority"),
    }
}

#[test]
fn measurement_window_reports_the_rate() {
    let mut engine = fresh_engine(false);
    engine.account_bytes(48000 * 8);
    assert_eq!(engine.check_measurement(500, 1000), None);
    let rate = engine.check_measurement(1001, 1000);
    let rate = rate.expect("the window is past the interval");
    assert!((rate as i64 - 47952).abs() < 100, "rate {}", rate);
}

#[test]
fn needed_capture_bytes_follows_the_resampler() {
    let mut engine = fresh_engine(false);
    assert_eq!(engine.needed_capture_bytes(None), 1024 * 2 * 4);
    assert_eq!(engine.needed_capture_bytes(Some(1200)), 1200 * 2 * 4);
    assert_eq!(engine.needed_capture_bytes(None), 1200 * 2 * 4);
}

#[test]
fn chunk_stats_measure_the_valid_prefix() {
    let wave: Vec<i64> = vec![q(0.5), q(-0.5), q(0.5), q(-0.5), q(123.0), q(123.0)];
    let chunk = AudioChunk::new(vec![wave], q(0.5), q(-0.5), 6, 4);
    let stats = chunk.get_stats();
    assert_eq!(stats.peak[0], q(0.5));
    assert!((stats.rms[0] - q(0.5)).abs() < 100);
    let peak_db = stats.peak_db()[0] as f64 / FIXED_ONE as f64;
    assert!((peak_db - (-6.0206)).abs() < 1e-3);
}

#[test]
fn empty_waveform_is_a_no_op() {
    let coeffs = BiquadCoefficients::new(0, 0, FIXED_ONE, 0, 0);
    let mut filter = Biquad::new(coeffs);
    let mut wave: Vec<i64> = Vec::new();
    filter.process_waveform(&mut wave).unwrap();
    assert!(wave.is_empty());
    assert_eq!(filter.s1, 0);
    assert_eq!(filter.s2, 0);
}

#[test]
fn stats_of_an_empty_prefix_are_zero() {
    let chunk = AudioChunk::new(vec![vec![q(0.5); 8]], q(0.5), q(0.5), 8, 0);
    let stats = chunk.get_stats();
    assert_eq!(stats.peak[0], 0);
    assert_eq!(stats.rms[0], 0);
}

#[test]
fn zero_silence_timeout_pauses_on_the_first_quiet_chunk() {
    let mut sc = camilladsp::countertimer::SilenceCounter::new(q(-50.0), 0, 48000, 1024);
    assert_eq!(sc.limit, 0);
    assert_eq!(sc.update(q(0.001)), ProcessingState::Paused);
    assert_eq!(sc.update(q(0.01)), ProcessingState::Running);
}

#[test]
fn queue_failure_surfaces_as_playback_error() {
    let mut playback = PlaybackEngine::new(2048, 1024, 1000, true, 48000, 0);
    let status = playback.on_channel_error("channel closed".to_string());
    match status {
        StatusMessage::PlaybackError(text) => assert_eq!(text, "channel closed"),
        _ => panic!("a dead queue must surface as PlaybackError"),
    }
    assert!(playback.done);
}
