//! Decision core of the playback actor: clipped-sample accounting, buffer
//! delay averaging, and the clock-drift correction that asks the capture
//! side to change speed.  The actor's device I/O lives outside; it feeds
//! this engine the delay readings and the clock, and carries out what the
//! engine decides.

use vstd::prelude::*;
use crate::PrcFmt;
use crate::PlaybackStatus;
use crate::StatusMessage;
use crate::countertimer::Stopwatch;
use crate::countertimer::Averager;
use crate::countertimer::sat_u64;
use crate::fixed::FIXED_ONE;
use crate::fixed::sat64;
use crate::fixed::div_trunc;
use crate::fixed::q_add;
use vstd::math::abs;

verus! {

/// The corrected speed ratio for an average delay `d`, target `T`, period
/// `P` (milliseconds) and rate `R`: `1 + (d - T)/(P/1000 * R)`, in Q30.
pub open spec fn speed_ratio(avg_delay: int, target: int, period_ms: int, rate: int) -> int
    recommends
        period_ms >= 1,
        rate >= 1,
{
    q_add(
        FIXED_ONE as int,
        sat64(div_trunc((avg_delay - target) * (FIXED_ONE as int) * 1000, period_ms * rate)),
    )
}

/// When the average delay already sits at the target, the corrected speed
/// is exactly one.
pub proof fn lemma_speed_at_target(target: int, period_ms: int, rate: int)
    requires
        period_ms >= 1,
        rate >= 1,
    ensures
        speed_ratio(target, target, period_ms, rate) == FIXED_ONE as int,
{
    assert((target - target) * (FIXED_ONE as int) * 1000 == 0) by (nonlinear_arith);
    assert(period_ms * rate >= 1) by (nonlinear_arith)
        requires
            period_ms >= 1,
            rate >= 1,
    ;
}

/// The corrected speed ratio, computed exactly as `speed_ratio` says.
pub fn calculate_speed(avg_delay: i64, target_level: usize, adjust_period_ms: u64, samplerate: usize) -> (r:
    PrcFmt)
    requires
        adjust_period_ms >= 1,
        samplerate >= 1,
        target_level <= i64::MAX,
    ensures
        r as int == speed_ratio(
            avg_delay as int,
            target_level as int,
            adjust_period_ms as int,
            samplerate as int,
        ),
{
    proof {
        assert((adjust_period_ms as int) * (samplerate as int) >= 1) by (nonlinear_arith)
            requires
                adjust_period_ms as int >= 1,
                samplerate as int >= 1,
        ;
        assert((adjust_period_ms as int) * (samplerate as int) <= 18446744073709551615int
            * 18446744073709551615int) by (nonlinear_arith)
            requires
                0 <= adjust_period_ms as int <= 18446744073709551615int,
                0 <= samplerate as int <= 18446744073709551615int,
        ;
    }
    let delta: i128 = (avg_delay as i128) - (target_level as i128);
    let neg = delta < 0;
    let mag: u128 = if neg {
        (-delta) as u128
    } else {
        delta as u128
    };
    proof {
        assert(mag as int * (1073741824int * 1000) <= 36893488147419103232int * 1073741824000int)
            by (nonlinear_arith)
            requires
                0 <= mag as int <= 36893488147419103232int,
        ;
        assert(abs((avg_delay as int - target_level as int) * (FIXED_ONE as int) * 1000) == abs(
            avg_delay as int - target_level as int,
        ) * (FIXED_ONE as int) * 1000) by (nonlinear_arith)
            requires
                FIXED_ONE == 1073741824,
        ;
        assert(((avg_delay as int - target_level as int) * (FIXED_ONE as int) * 1000 < 0) == ((
        avg_delay as int - target_level as int) < 0)) by (nonlinear_arith)
            requires
                FIXED_ONE == 1073741824,
        ;
        assert(mag as int * 1073741824int * 1000 == mag as int * (1073741824int * 1000))
            by (nonlinear_arith);
    }
    let num: u128 = mag * (FIXED_ONE as u128) * 1000u128;
    let den: u128 = (adjust_period_ms as u128) * (samplerate as u128);
    let q: u128 = num / den;
    let correction: i64 = if neg {
        if q >= 9223372036854775808u128 {
            i64::MIN
        } else {
            -(q as i64)
        }
    } else {
        if q > i64::MAX as u128 {
            i64::MAX
        } else {
            q as i64
        }
    };
    crate::fixed::fadd(FIXED_ONE, correction)
}

/// Add freshly clipped samples to the running counter.  The counter never
/// decreases.
pub fn add_clipped(status: &mut PlaybackStatus, clipped: usize)
    ensures
        final(status).clipped_samples as int == if old(status).clipped_samples + clipped
            > usize::MAX {
            usize::MAX as int
        } else {
            old(status).clipped_samples + clipped
        },
        final(status).clipped_samples >= old(status).clipped_samples,
        final(status).update_interval == old(status).update_interval,
        final(status).buffer_level == old(status).buffer_level,
        final(status).signal_rms == old(status).signal_rms,
        final(status).signal_peak == old(status).signal_peak,
{
    status.clipped_samples = status.clipped_samples.saturating_add(clipped);
}

/// Record the published window average as the current buffer level.
pub fn set_buffer_level(status: &mut PlaybackStatus, level: usize)
    ensures
        final(status).buffer_level == level,
        final(status).clipped_samples == old(status).clipped_samples,
        final(status).update_interval == old(status).update_interval,
        final(status).signal_rms == old(status).signal_rms,
        final(status).signal_peak == old(status).signal_peak,
{
    status.buffer_level = level;
}

/// What one adjustment check decides: the buffer level to publish, if the
/// window closed, and the speed command to send, if rate adjust is on.
pub struct AdjustOutcome {
    pub set_speed: Option<PrcFmt>,
    pub buffer_level: Option<usize>,
}

/// The playback actor's decision state: the adjustment window timer, the
/// running average of device-reported delay, and the configuration that
/// says whether and how often to correct the clock drift.
pub struct PlaybackEngine {
    pub target_level: usize,
    pub adjust_period_ms: u64,
    pub adjust_enabled: bool,
    pub samplerate: usize,
    pub timer: Stopwatch,
    pub buffer_avg: Averager,
    pub done: bool,
}

impl PlaybackEngine {
    pub open spec fn wf(&self) -> bool {
        &&& self.buffer_avg.wf()
        &&& self.samplerate >= 1
        &&& self.target_level <= i64::MAX
    }

    /// Whether this engine ever emits `SetSpeed`: only with rate adjust
    /// enabled and a positive adjustment period.
    pub open spec fn adjusts(&self) -> bool {
        self.adjust_enabled && self.adjust_period_ms >= 1
    }

    /// Build the engine.  A configured target level of zero falls back to
    /// the chunk size.
    pub fn new(
        target_level: usize,
        chunksize: usize,
        adjust_period_ms: u64,
        adjust_enabled: bool,
        samplerate: usize,
        now_ms: u64,
    ) -> (r: Self)
        requires
            samplerate >= 1,
            target_level <= i64::MAX,
            chunksize <= i64::MAX,
        ensures
            r.wf(),
            r.target_level == if target_level > 0 {
                target_level as int
            } else {
                chunksize as int
            },
            r.adjust_period_ms == adjust_period_ms,
            r.adjust_enabled == adjust_enabled,
            r.samplerate == samplerate,
            r.timer.start_ms == now_ms,
            r.buffer_avg.count() == 0,
            !r.done,
    {
        let target = if target_level > 0 {
            target_level
        } else {
            chunksize
        };
        PlaybackEngine {
            target_level: target,
            adjust_period_ms,
            adjust_enabled,
            samplerate,
            timer: Stopwatch::new(now_ms),
            buffer_avg: Averager::new(),
            done: false,
        }
    }

    /// Feed one device-reported buffer delay (in frames).
    pub fn on_delay_report(&mut self, delay: i64)
        requires
            old(self).wf(),
            !old(self).done,
            old(self).buffer_avg.count() < 0x4000_0000_0000_0000 - 1,
        ensures
            final(self).wf(),
            final(self).buffer_avg.sum() == old(self).buffer_avg.sum() + delay,
            final(self).buffer_avg.count() == old(self).buffer_avg.count() + 1,
            final(self).target_level == old(self).target_level,
            final(self).adjust_period_ms == old(self).adjust_period_ms,
            final(self).adjust_enabled == old(self).adjust_enabled,
            final(self).samplerate == old(self).samplerate,
            final(self).timer == old(self).timer,
            final(self).done == old(self).done,
    {
        self.buffer_avg.add_value(delay);
    }

    /// The average delay of the open window, clamped to a frame count.
    pub open spec fn window_average(&self) -> int
        recommends
            self.buffer_avg.count() > 0,
    {
        sat64(div_trunc(self.buffer_avg.sum(), self.buffer_avg.count()))
    }

    /// Close the adjustment window if it has run longer than the period:
    /// publish the average as the buffer level and, when rate adjust is on,
    /// derive the corrected speed.  With the period set to zero or adjust
    /// disabled, no speed is ever emitted.
    pub fn check_adjust(&mut self, now_ms: u64) -> (r: AdjustOutcome)
        requires
            old(self).wf(),
            !old(self).done,
            now_ms >= old(self).timer.start_ms,
        ensures
            final(self).wf(),
            final(self).target_level == old(self).target_level,
            final(self).adjust_period_ms == old(self).adjust_period_ms,
            final(self).adjust_enabled == old(self).adjust_enabled,
            final(self).samplerate == old(self).samplerate,
            final(self).done == old(self).done,
            !(now_ms - old(self).timer.start_ms > old(self).adjust_period_ms
                && old(self).buffer_avg.count() > 0) ==> {
                &&& r.set_speed is None
                &&& r.buffer_level is None
                &&& *final(self) == *old(self)
            },
            (now_ms - old(self).timer.start_ms > old(self).adjust_period_ms
                && old(self).buffer_avg.count() > 0) ==> {
                &&& final(self).timer.start_ms == now_ms
                &&& final(self).buffer_avg.count() == 0
                &&& (r.buffer_level matches Some(lv) && lv as int == ({
                    let wa = old(self).window_average();
                    if wa < 0 {
                        0int
                    } else if wa > usize::MAX as int {
                        usize::MAX as int
                    } else {
                        wa
                    }
                }))
                &&& (old(self).adjusts() ==> r.set_speed == Some(
                    speed_ratio(
                        old(self).window_average(),
                        old(self).target_level as int,
                        old(self).adjust_period_ms as int,
                        old(self).samplerate as int,
                    ) as i64,
                ))
                &&& (!old(self).adjusts() ==> r.set_speed is None)
            },
            !old(self).adjusts() ==> r.set_speed is None,
    {
        if !self.timer.larger_than_millis(now_ms, self.adjust_period_ms) {
            return AdjustOutcome { set_speed: None, buffer_level: None };
        }
        let avg = self.buffer_avg.get_average();
        match avg {
            Some(av_delay) => {
                self.timer.restart(now_ms);
                self.buffer_avg.restart();
                let set_speed = if self.adjust_enabled && self.adjust_period_ms >= 1 {
                    Some(
                        calculate_speed(
                            av_delay,
                            self.target_level,
                            self.adjust_period_ms,
                            self.samplerate,
                        ),
                    )
                } else {
                    None
                };
                let level: usize = if av_delay < 0 {
                    0
                } else if av_delay as u64 > usize::MAX as u64 {
                    usize::MAX
                } else {
                    av_delay as usize
                };
                AdjustOutcome { set_speed, buffer_level: Some(level) }
            },
            None => AdjustOutcome { set_speed: None, buffer_level: None },
        }
    }

    /// The end-of-stream sentinel arrived: report the actor done.  This can
    /// happen only once per engine.
    pub fn on_end_of_stream(&mut self) -> (r: StatusMessage)
        requires
            !old(self).done,
        ensures
            final(self).done,
            r == StatusMessage::PlaybackDone,
            final(self).target_level == old(self).target_level,
            final(self).adjust_period_ms == old(self).adjust_period_ms,
            final(self).adjust_enabled == old(self).adjust_enabled,
            final(self).samplerate == old(self).samplerate,
    {
        self.done = true;
        StatusMessage::PlaybackDone
    }

    /// The inbound audio queue failed: report the error and stop.
    pub fn on_channel_error(&mut self, desc: String) -> (r: StatusMessage)
        requires
            !old(self).done,
        ensures
            final(self).done,
            r == StatusMessage::PlaybackError(desc),
    {
        self.done = true;
        StatusMessage::PlaybackError(desc)
    }
}

/// How long to let the sink buffer refill before writing after a prepare:
/// `1000 * target_level / rate` milliseconds.
pub fn target_delay_millis(target_level: usize, samplerate: usize) -> (r: u64)
    requires
        samplerate >= 1,
    ensures
        r as int == sat_u64(1000 * (target_level as int) / (samplerate as int)),
{
    proof {
        assert(1000 * (target_level as int) <= 1000 * 18446744073709551615int)
            by (nonlinear_arith)
            requires
                0 <= target_level as int <= 18446744073709551615int,
        ;
    }
    let num: u128 = 1000u128 * (target_level as u128);
    let q: u128 = num / (samplerate as u128);
    if q > u64::MAX as u128 {
        u64::MAX
    } else {
        q as u64
    }
}

/// What to do before an interleaved write, from the sink device's state.
pub enum WriteSetup {
    /// After an underrun: prepare the device, then wait for the buffer to
    /// refill.
    PrepareAndWait(u64),
    /// Freshly prepared: wait so playback does not start on an empty
    /// buffer.
    WaitOnly(u64),
    /// Otherwise write at once.
    GoAhead,
}

/// The pre-write decision of the playback actor.
pub fn write_setup(dev_state: crate::audiodevice::DeviceState, target_delay_ms: u64) -> (r:
    WriteSetup)
    ensures
        dev_state == crate::audiodevice::DeviceState::XRun ==> r == WriteSetup::PrepareAndWait(
            target_delay_ms,
        ),
        dev_state == crate::audiodevice::DeviceState::Prepared ==> r == WriteSetup::WaitOnly(
            target_delay_ms,
        ),
        dev_state != crate::audiodevice::DeviceState::XRun && dev_state
            != crate::audiodevice::DeviceState::Prepared ==> r == WriteSetup::GoAhead,
{
    match dev_state {
        crate::audiodevice::DeviceState::XRun => WriteSetup::PrepareAndWait(target_delay_ms),
        crate::audiodevice::DeviceState::Prepared => WriteSetup::WaitOnly(target_delay_ms),
        _ => WriteSetup::GoAhead,
    }
}

} // verus!
