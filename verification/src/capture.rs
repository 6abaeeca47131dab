//! Decision core of the capture actor: command handling with the strict
//! rate-control priority, capture-size bookkeeping, rate measurement and
//! drift watching, silence gating, and the exit/error protocol that sends
//! exactly one end-of-stream sentinel downstream.
//!
//! The actor's device I/O lives outside; it feeds this engine the events
//! (commands, read outcomes, byte counts, the clock) and carries out what
//! the engine decides.

use vstd::prelude::*;
use vstd::math::abs;
use crate::PrcFmt;
use crate::CaptureStatus;
use crate::CommandMessage;
use crate::ProcessingState;
use crate::SampleFormat;
use crate::StatusMessage;
use crate::audiodevice::DeviceState;
use crate::countertimer::TimeAverage;
use crate::countertimer::ValueWatcher;
use crate::countertimer::SilenceCounter;
use crate::countertimer::measured_rate;
use crate::countertimer::sat_u64;
use crate::countertimer::deviates;
use crate::countertimer::silence_step;
use crate::fixed::FIXED_ONE;

verus! {

/// Relative rate deviation that counts as a change: 4 percent, in Q30.
pub const RATE_CHANGE_THRESHOLD_VALUE: PrcFmt = 42949673;

/// How many consecutive deviating measurements make a sustained change.
pub const RATE_CHANGE_THRESHOLD_COUNT: u32 = 3;

/// The rate-adjust controls a source device may expose.
pub struct RateControls {
    /// A hardware "PCM Rate Shift 100000" element.
    pub has_rate_shift: bool,
    /// A USB-audio-gadget "Capture Pitch 1000000" element.
    pub has_pitch: bool,
    /// A software resampler is installed.
    pub has_resampler: bool,
}

/// Where a `SetSpeed` command lands, by the strict priority: hardware rate
/// shift, then gadget pitch, then an asynchronous resampler, else nowhere.
pub enum SpeedTarget {
    /// Write this value to the rate-shift element.
    RateShift(i64),
    /// Write this value to the pitch element.
    Pitch(i64),
    /// Call `set_resample_ratio_relative` with this Q30 ratio.
    ResamplerRatio(PrcFmt),
    /// Only synchronous resampling (or none): the adjustment is ignored.
    NoTarget,
}

/// The value for the hardware rate-shift element: `100000 / speed`,
/// rounded to the nearest integer.
pub open spec fn rate_shift_value(speed: int) -> int
    recommends
        speed >= 1,
{
    (100000 * (FIXED_ONE as int) + speed / 2) / speed
}

/// The value for the gadget pitch element: `speed * 1000000`, rounded to
/// the nearest integer.
pub open spec fn pitch_value(speed: int) -> int
    recommends
        speed >= 0,
{
    (speed * 1000000 + (FIXED_ONE as int) / 2) / (FIXED_ONE as int)
}

/// The strict priority of the rate controls: only the first applicable target
/// receives the adjustment.
pub open spec fn route_speed(
    speed: int,
    has_rate_shift: bool,
    has_pitch: bool,
    has_resampler: bool,
    async_src: bool,
) -> SpeedTarget {
    if has_rate_shift {
        SpeedTarget::RateShift(rate_shift_value(speed) as i64)
    } else if has_pitch {
        SpeedTarget::Pitch(pitch_value(speed) as i64)
    } else if has_resampler && async_src {
        SpeedTarget::ResamplerRatio(speed as i64)
    } else {
        SpeedTarget::NoTarget
    }
}

/// The precedence of the rate-adjust targets is strict: a hardware rate
/// shift always wins, the gadget pitch comes second, an asynchronous
/// resampler third, and a speed command never falls through to a
/// synchronous (or absent) resampler.
pub proof fn lemma_speed_routing_priority(
    speed: int,
    has_rate_shift: bool,
    has_pitch: bool,
    has_resampler: bool,
    async_src: bool,
)
    ensures
        has_rate_shift ==> route_speed(speed, has_rate_shift, has_pitch, has_resampler, async_src)
            matches SpeedTarget::RateShift(_),
        !has_rate_shift && has_pitch ==> route_speed(
            speed,
            has_rate_shift,
            has_pitch,
            has_resampler,
            async_src,
        ) matches SpeedTarget::Pitch(_),
        !has_rate_shift && !has_pitch && has_resampler && async_src ==> route_speed(
            speed,
            has_rate_shift,
            has_pitch,
            has_resampler,
            async_src,
        ) matches SpeedTarget::ResamplerRatio(_),
        !has_rate_shift && !has_pitch && !(has_resampler && async_src) ==> route_speed(
            speed,
            has_rate_shift,
            has_pitch,
            has_resampler,
            async_src,
        ) == SpeedTarget::NoTarget,
{
}

fn compute_rate_shift_value(speed: PrcFmt) -> (r: i64)
    requires
        speed >= 1,
    ensures
        r as int == rate_shift_value(speed as int),
{
    let half: u128 = (speed as u128) / 2;
    let num: u128 = 100000u128 * (FIXED_ONE as u128) + half;
    let q: u128 = num / (speed as u128);
    proof {
        vstd::arithmetic::div_mod::lemma_div_is_ordered(
            num as int,
            100000 * (FIXED_ONE as int) + 4611686018427387904int,
            speed as int,
        );
    }
    q as i64
}

fn compute_pitch_value(speed: PrcFmt) -> (r: i64)
    requires
        speed >= 0,
    ensures
        r as int == pitch_value(speed as int),
{
    proof {
        assert((speed as int) * 1000000 <= 9223372036854775807int * 1000000int)
            by (nonlinear_arith)
            requires
                0 <= speed as int <= 9223372036854775807int,
        ;
    }
    let num: u128 = (speed as u128) * 1000000u128 + (FIXED_ONE as u128) / 2;
    let q: u128 = num / (FIXED_ONE as u128);
    proof {
        vstd::arithmetic::div_mod::lemma_div_is_ordered(
            num as int,
            9223372036854775807int * 1000000int + 536870912int,
            FIXED_ONE as int,
        );
    }
    q as i64
}

/// The capture actor's configuration, fixed for the life of the session.
pub struct CaptureParams {
    pub channels: usize,
    pub sample_format: SampleFormat,
    pub chunksize: usize,
    pub store_bytes_per_sample: usize,
    pub samplerate: usize,
    pub capture_samplerate: usize,
    pub async_src: bool,
    pub retry_on_error: bool,
    pub avoid_blocking_read: bool,
    pub stop_on_rate_change: bool,
    pub rate_measure_interval_ms: u64,
}

impl CaptureParams {
    pub open spec fn wf(&self) -> bool {
        &&& self.channels >= 1
        &&& self.store_bytes_per_sample >= 1
        &&& self.chunksize >= 1
        &&& self.capture_samplerate >= 1
        &&& self.channels * self.store_bytes_per_sample <= usize::MAX
        &&& self.chunksize * self.channels * self.store_bytes_per_sample <= usize::MAX
    }
}

/// What the command poll decides.
pub enum CommandOutcome {
    /// Send the end-of-stream sentinel and `CaptureDone`, then stop.
    ExitNow,
    /// Apply a speed adjustment to the given target.
    Adjust(SpeedTarget),
    /// Nothing to do.
    NoAction,
}

/// What the rate watcher decides after a measurement window.
pub enum RateAlarm {
    /// No sustained change.
    NoAlarm,
    /// A sustained change was measured; log it and go on.
    Warn(usize),
    /// A sustained change was measured and the session is configured to
    /// stop: send the sentinel and `CaptureFormatChange`, then stop.
    FormatChange(usize),
}

/// The measured rate a closed averaging window yields: bytes per second
/// divided into frames.
pub open spec fn rate_of_window(sum: int, elapsed_ms: int, channels: int, bps: int) -> int
    recommends
        elapsed_ms >= 1,
        channels * bps >= 1,
{
    let bytes_per_sec = sat_u64(1000 * sum / elapsed_ms);
    let q = bytes_per_sec / (channels * bps);
    if q > usize::MAX as int {
        usize::MAX as int
    } else {
        q
    }
}

/// Whether feeding `value` trips a watcher that needs `threshold_count`
/// consecutive deviations.
pub open spec fn watch_triggers(w: ValueWatcher, value: int) -> bool {
    &&& deviates(w.baseline as int, w.threshold as int, value)
    &&& vstd::math::min(w.count as int + 1, w.threshold_count as int) == w.threshold_count as int
}

/// The capture actor's decision state.
pub struct CaptureEngine {
    pub params: CaptureParams,
    pub averager: TimeAverage,
    pub watcher_averager: TimeAverage,
    pub valuewatcher: ValueWatcher,
    pub silence: SilenceCounter,
    pub state: ProcessingState,
    pub rate_adjust: PrcFmt,
    pub capture_bytes: usize,
    pub sent_eos: bool,
    pub done: bool,
}

impl CaptureEngine {
    pub open spec fn wf(&self) -> bool {
        &&& self.params.wf()
        &&& self.valuewatcher.wf()
        &&& self.silence.wf()
        &&& (self.sent_eos ==> self.done)
    }

    /// Build the engine: averaging windows open now, the rate watcher
    /// holding the configured capture rate as its baseline, the silence
    /// detector built from the dB threshold and timeout, and a rate-adjust
    /// ratio of one.
    pub fn new(
        params: CaptureParams,
        silence_threshold_db: PrcFmt,
        silence_timeout_ms: u64,
        now_ms: u64,
    ) -> (r: Self)
        requires
            params.wf(),
            abs(silence_threshold_db as int) <= 160 * (FIXED_ONE as int),
            params.capture_samplerate <= u64::MAX,
        ensures
            r.wf(),
            r.params == params,
            r.averager.sum == 0,
            r.averager.start_ms == now_ms,
            r.watcher_averager.sum == 0,
            r.watcher_averager.start_ms == now_ms,
            r.valuewatcher.baseline == params.capture_samplerate as u64,
            r.valuewatcher.threshold == RATE_CHANGE_THRESHOLD_VALUE,
            r.valuewatcher.threshold_count == RATE_CHANGE_THRESHOLD_COUNT,
            r.valuewatcher.count == 0,
            r.silence.count == 0,
            r.silence.threshold_linear as int == crate::fixed::q_pow10(
                crate::fixed::q_idiv(silence_threshold_db as int, 20),
            ),
            r.silence.limit as int == sat_u64(
                (silence_timeout_ms as int) * (params.capture_samplerate as int) / (1000 * (
                params.chunksize as int)),
            ),
            r.state == ProcessingState::Running,
            r.rate_adjust == FIXED_ONE,
            r.capture_bytes as int == params.chunksize * params.channels
                * params.store_bytes_per_sample,
            !r.sent_eos,
            !r.done,
    {
        proof {
            assert(params.chunksize * params.channels * params.store_bytes_per_sample >= 1 * 1 * 1)
                by (nonlinear_arith)
                requires
                    params.channels >= 1,
                    params.store_bytes_per_sample >= 1,
                    params.chunksize >= 1,
            ;
            assert(params.chunksize * (params.channels * params.store_bytes_per_sample) == params.chunksize
                * params.channels * params.store_bytes_per_sample) by (nonlinear_arith);
            assert(params.chunksize * (params.channels * params.store_bytes_per_sample) <= usize::MAX)
                by (nonlinear_arith)
                requires
                    params.chunksize * params.channels * params.store_bytes_per_sample
                        <= usize::MAX,
                    params.chunksize * (params.channels * params.store_bytes_per_sample)
                        == params.chunksize * params.channels * params.store_bytes_per_sample,
            ;
        }
        let frame_bytes: usize = params.channels * params.store_bytes_per_sample;
        let capture_bytes: usize = params.chunksize * frame_bytes;
        let silence = SilenceCounter::new(
            silence_threshold_db,
            silence_timeout_ms,
            params.capture_samplerate,
            params.chunksize,
        );
        let valuewatcher = ValueWatcher::new(
            params.capture_samplerate,
            RATE_CHANGE_THRESHOLD_VALUE,
            RATE_CHANGE_THRESHOLD_COUNT,
        );
        CaptureEngine {
            params,
            averager: TimeAverage::new(now_ms),
            watcher_averager: TimeAverage::new(now_ms),
            valuewatcher,
            silence,
            state: ProcessingState::Running,
            rate_adjust: FIXED_ONE,
            capture_bytes,
            sent_eos: false,
            done: false,
        }
    }

    /// Handle one polled control message.  `Exit` ends the session: the
    /// caller sends the end-of-stream sentinel and `CaptureDone`, and this
    /// engine accepts no further events.  `SetSpeed` is routed by the
    /// strict priority and recorded as the current rate-adjust ratio.
    pub fn handle_command(&mut self, cmd: Option<CommandMessage>, controls: RateControls) -> (r:
        CommandOutcome)
        requires
            old(self).wf(),
            !old(self).done,
            cmd matches Some(CommandMessage::SetSpeed { speed }) ==> speed >= 1,
        ensures
            final(self).wf(),
            final(self).params == old(self).params,
            final(self).averager == old(self).averager,
            final(self).watcher_averager == old(self).watcher_averager,
            final(self).valuewatcher == old(self).valuewatcher,
            final(self).silence == old(self).silence,
            final(self).state == old(self).state,
            final(self).capture_bytes == old(self).capture_bytes,
            cmd is None ==> r == CommandOutcome::NoAction && *final(self) == *old(self),
            cmd == Some(CommandMessage::Exit) ==> {
                &&& r == CommandOutcome::ExitNow
                &&& final(self).done
                &&& final(self).sent_eos
                &&& !old(self).sent_eos
            },
            (cmd matches Some(CommandMessage::SetSpeed { speed })) ==> {
                &&& final(self).rate_adjust == cmd->Some_0->SetSpeed_speed
                &&& !final(self).done
                &&& !final(self).sent_eos
                &&& r == CommandOutcome::Adjust(
                    route_speed(
                        cmd->Some_0->SetSpeed_speed as int,
                        controls.has_rate_shift,
                        controls.has_pitch,
                        controls.has_resampler,
                        old(self).params.async_src,
                    ),
                )
            },
    {
        match cmd {
            None => CommandOutcome::NoAction,
            Some(CommandMessage::Exit) => {
                self.done = true;
                self.sent_eos = true;
                CommandOutcome::ExitNow
            },
            Some(CommandMessage::SetSpeed { speed }) => {
                self.rate_adjust = speed;
                let target = if controls.has_rate_shift {
                    SpeedTarget::RateShift(compute_rate_shift_value(speed))
                } else if controls.has_pitch {
                    SpeedTarget::Pitch(compute_pitch_value(speed))
                } else if controls.has_resampler && self.params.async_src {
                    SpeedTarget::ResamplerRatio(speed)
                } else {
                    SpeedTarget::NoTarget
                };
                CommandOutcome::Adjust(target)
            },
        }
    }

    /// How many bytes the next read must deliver: what the resampler asks
    /// for, if one is installed, else one chunk.  The count is remembered.
    pub fn needed_capture_bytes(&mut self, resampler_frames_needed: Option<usize>) -> (r: usize)
        requires
            old(self).wf(),
            resampler_frames_needed matches Some(f) ==> f * old(self).params.channels * old(
                self,
            ).params.store_bytes_per_sample <= usize::MAX,
        ensures
            final(self).wf(),
            *final(self) == (CaptureEngine { capture_bytes: final(self).capture_bytes, ..*old(self) }),
            r == final(self).capture_bytes,
            resampler_frames_needed matches Some(f) ==> r as int == f * old(
                self,
            ).params.channels as int * old(self).params.store_bytes_per_sample as int,
            resampler_frames_needed is None ==> r == old(self).capture_bytes,
    {
        match resampler_frames_needed {
            Some(frames) => {
                proof {
                    assert(frames * (self.params.channels * self.params.store_bytes_per_sample)
                        == frames * self.params.channels * self.params.store_bytes_per_sample)
                        by (nonlinear_arith);
                }
                let nbr = frames * (self.params.channels * self.params.store_bytes_per_sample);
                self.capture_bytes = nbr;
                nbr
            },
            None => self.capture_bytes,
        }
    }

    /// Account one successful read in both averaging windows.
    pub fn account_bytes(&mut self, bytes: usize)
        requires
            old(self).wf(),
        ensures
            final(self).wf(),
            *final(self) == (CaptureEngine {
                averager: final(self).averager,
                watcher_averager: final(self).watcher_averager,
                ..*old(self)
            }),
            final(self).averager.sum as int == sat_u64(old(self).averager.sum + bytes),
            final(self).averager.start_ms == old(self).averager.start_ms,
            final(self).watcher_averager.sum as int == sat_u64(
                old(self).watcher_averager.sum + bytes,
            ),
            final(self).watcher_averager.start_ms == old(self).watcher_averager.start_ms,
    {
        self.averager.add_value(bytes);
        self.watcher_averager.add_value(bytes);
    }

    /// Close the short averaging window if it outlasted the configured
    /// update interval, and return the measured sample rate to publish.
    pub fn check_measurement(&mut self, now_ms: u64, update_interval_ms: u64) -> (r: Option<usize>)
        requires
            old(self).wf(),
            now_ms >= old(self).averager.start_ms,
        ensures
            final(self).wf(),
            *final(self) == (CaptureEngine { averager: final(self).averager, ..*old(self) }),
            !(now_ms - old(self).averager.start_ms > update_interval_ms) ==> {
                &&& r is None
                &&& *final(self) == *old(self)
            },
            now_ms - old(self).averager.start_ms > update_interval_ms ==> {
                &&& final(self).averager.sum == 0
                &&& final(self).averager.start_ms == now_ms
                &&& r matches Some(v) && v as int == rate_of_window(
                    old(self).averager.sum as int,
                    now_ms - old(self).averager.start_ms,
                    old(self).params.channels as int,
                    old(self).params.store_bytes_per_sample as int,
                )
            },
    {
        if self.averager.larger_than_millis(now_ms, update_interval_ms) {
            let bytes_per_sec = self.averager.get_average(now_ms);
            self.averager.restart(now_ms);
            let rate = measured_rate(
                bytes_per_sec,
                self.params.channels,
                self.params.store_bytes_per_sample,
            );
            proof {
                assert((self.params.channels as int) * (self.params.store_bytes_per_sample as int)
                    >= 1) by (nonlinear_arith)
                    requires
                        self.params.channels as int >= 1,
                        self.params.store_bytes_per_sample as int >= 1,
                ;
            }
            Some(rate)
        } else {
            None
        }
    }

    /// Close the long watching window if it outlasted the rate-measure
    /// interval, feed the drift watcher, and decide: nothing, a warning,
    /// or — when the session stops on rate changes — a format change,
    /// after which this engine accepts no further events.
    pub fn check_rate_watch(&mut self, now_ms: u64) -> (r: RateAlarm)
        requires
            old(self).wf(),
            !old(self).done,
            now_ms >= old(self).watcher_averager.start_ms,
        ensures
            final(self).wf(),
            final(self).params == old(self).params,
            final(self).averager == old(self).averager,
            final(self).silence == old(self).silence,
            final(self).state == old(self).state,
            final(self).rate_adjust == old(self).rate_adjust,
            final(self).capture_bytes == old(self).capture_bytes,
            !(now_ms - old(self).watcher_averager.start_ms
                > old(self).params.rate_measure_interval_ms) ==> {
                &&& r == RateAlarm::NoAlarm
                &&& *final(self) == *old(self)
            },
            now_ms - old(self).watcher_averager.start_ms
                > old(self).params.rate_measure_interval_ms ==> {
                &&& final(self).watcher_averager.sum == 0
                &&& final(self).watcher_averager.start_ms == now_ms
                &&& ({
                    let wr = rate_of_window(
                        old(self).watcher_averager.sum as int,
                        now_ms - old(self).watcher_averager.start_ms,
                        old(self).params.channels as int,
                        old(self).params.store_bytes_per_sample as int,
                    );
                    let trig = watch_triggers(old(self).valuewatcher, wr);
                    &&& (r == RateAlarm::FormatChange(wr as usize) <==> trig && old(
                        self,
                    ).params.stop_on_rate_change)
                    &&& (r == RateAlarm::Warn(wr as usize) <==> trig && !old(
                        self,
                    ).params.stop_on_rate_change)
                    &&& (r == RateAlarm::NoAlarm <==> !trig)
                    &&& (final(self).done <==> trig && old(self).params.stop_on_rate_change)
                    &&& (final(self).sent_eos <==> trig && old(self).params.stop_on_rate_change)
                })
            },
            !old(self).params.stop_on_rate_change ==> !(r matches RateAlarm::FormatChange(_))
                && !final(self).done && !final(self).sent_eos,
    {
        if self.watcher_averager.larger_than_millis(
            now_ms,
            self.params.rate_measure_interval_ms,
        ) {
            let bytes_per_sec = self.watcher_averager.get_average(now_ms);
            self.watcher_averager.restart(now_ms);
            proof {
                assert((self.params.channels as int) * (self.params.store_bytes_per_sample as int)
                    >= 1) by (nonlinear_arith)
                    requires
                        self.params.channels as int >= 1,
                        self.params.store_bytes_per_sample as int >= 1,
                ;
            }
            let wr = measured_rate(
                bytes_per_sec,
                self.params.channels,
                self.params.store_bytes_per_sample,
            );
            let changed = self.valuewatcher.check_value(wr);
            if changed {
                if self.params.stop_on_rate_change {
                    self.done = true;
                    self.sent_eos = true;
                    RateAlarm::FormatChange(wr)
                } else {
                    RateAlarm::Warn(wr)
                }
            } else {
                RateAlarm::NoAlarm
            }
        } else {
            RateAlarm::NoAlarm
        }
    }

    /// Update the processing state from one chunk's signal range, and say
    /// whether the chunk travels on.  A chunk read back as a recoverable
    /// error pauses the pipeline outright; otherwise the silence detector
    /// decides.  A chunk is forwarded exactly in the `Running` state.
    pub fn update_state(&mut self, value_range: PrcFmt, was_recoverable: bool) -> (r: (
        ProcessingState,
        bool,
    ))
        requires
            old(self).wf(),
            !old(self).done,
        ensures
            final(self).wf(),
            *final(self) == (CaptureEngine {
                silence: final(self).silence,
                state: final(self).state,
                ..*old(self)
            }),
            r.0 == final(self).state,
            r.1 <==> r.0 == ProcessingState::Running,
            was_recoverable ==> r.0 == ProcessingState::Paused && final(self).silence == old(
                self,
            ).silence,
            !was_recoverable ==> (final(self).silence.count as int, r.0) == silence_step(
                old(self).silence.threshold_linear as int,
                old(self).silence.limit as int,
                old(self).silence.count as int,
                value_range as int,
            ) && final(self).silence.threshold_linear == old(self).silence.threshold_linear
                && final(self).silence.limit == old(self).silence.limit,
    {
        let state = if was_recoverable {
            ProcessingState::Paused
        } else {
            self.silence.update(value_range)
        };
        self.state = state;
        let forward = match state {
            ProcessingState::Running => true,
            _ => false,
        };
        (state, forward)
    }

    /// A fatal device error: report it, and send the end-of-stream
    /// sentinel downstream if none was sent yet — never more than one.
    /// The engine accepts no further events.
    pub fn on_fatal_error(&mut self, desc: String) -> (r: (StatusMessage, bool))
        requires
            old(self).wf(),
            !old(self).done,
        ensures
            final(self).wf(),
            final(self).done,
            final(self).sent_eos,
            r.0 == StatusMessage::CaptureError(desc),
            r.1 == !old(self).sent_eos,
    {
        let send_eos = !self.sent_eos;
        self.done = true;
        self.sent_eos = true;
        (StatusMessage::CaptureError(desc), send_eos)
    }
}

/// What to do with the source device before a read.
pub enum PreReadAction {
    /// The device overran: prepare it again.
    Prepare,
    /// The device is not running yet: start it.
    Start,
    /// Read right away.
    Proceed,
}

/// The pre-read decision of the capture actor.
pub fn pre_read_action(dev_state: DeviceState) -> (r: PreReadAction)
    ensures
        dev_state == DeviceState::XRun ==> r == PreReadAction::Prepare,
        dev_state != DeviceState::XRun && dev_state != DeviceState::Running ==> r
            == PreReadAction::Start,
        dev_state == DeviceState::Running ==> r == PreReadAction::Proceed,
{
    match dev_state {
        DeviceState::XRun => PreReadAction::Prepare,
        DeviceState::Running => PreReadAction::Proceed,
        _ => PreReadAction::Start,
    }
}

/// How long to wait for missing frames before reading again: the
/// theoretical time plus a 10 percent margin and one extra millisecond.
/// `None` when enough frames are already available.
pub fn capture_wait_millis(available: usize, frames_to_read: usize, samplerate: usize) -> (r:
    Option<u64>)
    requires
        samplerate >= 1,
    ensures
        available >= frames_to_read ==> r is None,
        available < frames_to_read ==> r == Some(
            (sat_u64(1 + 1100 * ((frames_to_read - available) as int) / (samplerate as int))) as u64,
        ),
{
    if available >= frames_to_read {
        return None;
    }
    let missing: u64 = (frames_to_read - available) as u64;
    proof {
        assert(1100 * (missing as int) <= 1100 * 18446744073709551615int) by (nonlinear_arith)
            requires
                0 <= missing as int <= 18446744073709551615int,
        ;
    }
    let num: u128 = 1100u128 * (missing as u128);
    let q: u128 = 1 + num / (samplerate as u128);
    if q > u64::MAX as u128 {
        Some(u64::MAX)
    } else {
        Some(q as u64)
    }
}

/// How long one whole read lasts at the nominal rate, in milliseconds.
pub fn whole_chunk_wait_millis(frames_to_read: usize, samplerate: usize) -> (r: u64)
    requires
        samplerate >= 1,
    ensures
        r as int == sat_u64(1000 * (frames_to_read as int) / (samplerate as int)),
{
    proof {
        assert(1000 * (frames_to_read as int) <= 1000 * 18446744073709551615int)
            by (nonlinear_arith)
            requires
                0 <= frames_to_read as int <= 18446744073709551615int,
        ;
    }
    let num: u128 = 1000u128 * (frames_to_read as u128);
    let q: u128 = num / (samplerate as u128);
    if q > u64::MAX as u128 {
        u64::MAX
    } else {
        q as u64
    }
}

/// How a failed device call during capture is classified.
pub enum ReadErrorKind {
    /// An I/O interruption (EIO) on the read.
    Interrupted,
    /// An overrun (EPIPE) on the read.
    Overrun,
    /// The query for available frames itself failed.
    AvailQueryFailed,
    /// Anything else.
    Other,
}

/// What the actor does about it.
pub enum ReadErrorAction {
    /// Absorb the error; the loop pauses and tries again.
    TreatAsRecoverable,
    /// Prepare the device and issue the read once more.
    PrepareAndReread,
    /// Give up: the error is fatal.
    Fatal,
}

/// The error policy of the capture read: interruptions and failed
/// availability queries are absorbed when retries are on; an overrun gets
/// one prepare-and-reread; everything else, or any error with retries off,
/// is fatal.
pub fn classify_read_error(kind: ReadErrorKind, retry: bool) -> (r: ReadErrorAction)
    ensures
        kind == ReadErrorKind::Interrupted && retry ==> r == ReadErrorAction::TreatAsRecoverable,
        kind == ReadErrorKind::Interrupted && !retry ==> r == ReadErrorAction::Fatal,
        kind == ReadErrorKind::Overrun && retry ==> r == ReadErrorAction::PrepareAndReread,
        kind == ReadErrorKind::Overrun && !retry ==> r == ReadErrorAction::Fatal,
        kind == ReadErrorKind::AvailQueryFailed && retry ==> r
            == ReadErrorAction::TreatAsRecoverable,
        kind == ReadErrorKind::AvailQueryFailed && !retry ==> r == ReadErrorAction::Fatal,
        kind == ReadErrorKind::Other ==> r == ReadErrorAction::Fatal,
{
    match kind {
        ReadErrorKind::Interrupted => {
            if retry {
                ReadErrorAction::TreatAsRecoverable
            } else {
                ReadErrorAction::Fatal
            }
        },
        ReadErrorKind::Overrun => {
            if retry {
                ReadErrorAction::PrepareAndReread
            } else {
                ReadErrorAction::Fatal
            }
        },
        ReadErrorKind::AvailQueryFailed => {
            if retry {
                ReadErrorAction::TreatAsRecoverable
            } else {
                ReadErrorAction::Fatal
            }
        },
        ReadErrorKind::Other => ReadErrorAction::Fatal,
    }
}

/// Write the freshly measured rate and companion figures into the shared
/// capture status record.
pub fn publish_capture_status(
    status: &mut CaptureStatus,
    measured_samplerate: usize,
    signal_range: PrcFmt,
    rate_adjust: PrcFmt,
    state: ProcessingState,
)
    ensures
        final(status).measured_samplerate == measured_samplerate,
        final(status).signal_range == signal_range,
        final(status).rate_adjust == rate_adjust,
        final(status).state == state,
        final(status).update_interval == old(status).update_interval,
        final(status).signal_rms == old(status).signal_rms,
        final(status).signal_peak == old(status).signal_peak,
        final(status).used_channels == old(status).used_channels,
{
    status.measured_samplerate = measured_samplerate;
    status.signal_range = signal_range;
    status.rate_adjust = rate_adjust;
    status.state = state;
}

/// Set only the processing state of the shared capture status record.
pub fn set_capture_state(status: &mut CaptureStatus, state: ProcessingState)
    ensures
        final(status).state == state,
        final(status).measured_samplerate == old(status).measured_samplerate,
        final(status).signal_range == old(status).signal_range,
        final(status).rate_adjust == old(status).rate_adjust,
        final(status).update_interval == old(status).update_interval,
        final(status).signal_rms == old(status).signal_rms,
        final(status).signal_peak == old(status).signal_peak,
        final(status).used_channels == old(status).used_channels,
{
    status.state = state;
}

} // verus!
