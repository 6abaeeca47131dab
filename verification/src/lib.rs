//! Core of a realtime multichannel audio pipeline.
//!
//! Three cooperating actors (capture, processing, playback) exchange chunks
//! of audio over bounded queues.  This crate holds the verified heart of that
//! pipeline: the typed messages, the shared status records, the biquad filter
//! primitive, the rate/silence/averaging utilities, and the decision logic of
//! the capture and playback actors.  Device I/O itself stays outside.
//!
//! All signal values (samples, filter coefficients, ratios, decibel figures)
//! are Q30 fixed-point numbers held in `i64`: the stored integer is the real
//! value times `2^30`.

use vstd::prelude::*;

pub mod audiodevice;
pub mod biquad;
pub mod capture;
pub mod countertimer;
pub mod device;
pub mod fixed;
pub mod playback;

verus! {

/// Processing sample format: Q30 fixed point in an `i64`.  A stored value `v`
/// stands for the real number `v / 2^30`.
pub type PrcFmt = i64;

/// An error surfaced by the pipeline, carrying a human-readable description.
#[derive(Clone, Debug)]
pub struct DspError {
    pub message: String,
}

impl DspError {
    pub fn new(message: String) -> (r: Self)
        ensures
            r.message == message,
    {
        DspError { message }
    }
}

pub type Res<T> = Result<T, DspError>;

/// Message carried on the audio queues between capture, processing and
/// playback: a chunk of audio, or the end-of-stream sentinel that makes the
/// downstream actors drain and exit.
pub enum AudioMessage {
    Audio(audiodevice::AudioChunk),
    EndOfStream,
}

/// Lifecycle and failure reports the actors send to the supervisor.  The
/// `SetSpeed` ratio is a Q30 fixed-point value close to one.
pub enum StatusMessage {
    PlaybackReady,
    CaptureReady,
    PlaybackError(String),
    CaptureError(String),
    PlaybackFormatChange(usize),
    CaptureFormatChange(usize),
    PlaybackDone,
    CaptureDone,
    SetSpeed(PrcFmt),
}

/// Command sent from the supervisor to the capture actor.  The speed is a
/// Q30 fixed-point ratio close to one.
pub enum CommandMessage {
    SetSpeed { speed: PrcFmt },
    Exit,
}

pub enum ExitState {
    Restart,
    Exit,
}

#[derive(Clone, Copy, Debug, PartialEq, Eq, Structural)]
pub enum ProcessingState {
    Running,
    Paused,
    Inactive,
    Starting,
}

impl ProcessingState {
    /// The display name of the state.
    pub fn as_text(&self) -> (r: &'static str)
        ensures
            *self == ProcessingState::Running ==> r@ == "RUNNING"@,
            *self == ProcessingState::Paused ==> r@ == "PAUSED"@,
            *self == ProcessingState::Inactive ==> r@ == "INACTIVE"@,
            *self == ProcessingState::Starting ==> r@ == "STARTING"@,
    {
        match self {
            ProcessingState::Running => "RUNNING",
            ProcessingState::Paused => "PAUSED",
            ProcessingState::Inactive => "INACTIVE",
            ProcessingState::Starting => "STARTING",
        }
    }
}

pub struct ExitRequest {}

impl ExitRequest {
    pub const NONE: usize = 0;

    pub const EXIT: usize = 1;

    pub const STOP: usize = 2;
}

/// The wire format of samples on a device, all little-endian.
#[derive(Clone, Copy, Debug, PartialEq, Eq, Structural)]
pub enum SampleFormat {
    S16LE,
    S24LE,
    S24LE3,
    S32LE,
    FLOAT32LE,
    FLOAT64LE,
}

/// How many bytes one stored sample of the format occupies: `S24LE` is held
/// in four bytes, `S24LE3` is packed into three.
pub open spec fn bytes_per_sample_spec(f: SampleFormat) -> int {
    match f {
        SampleFormat::S16LE => 2,
        SampleFormat::S24LE => 4,
        SampleFormat::S24LE3 => 3,
        SampleFormat::S32LE => 4,
        SampleFormat::FLOAT32LE => 4,
        SampleFormat::FLOAT64LE => 8,
    }
}

impl SampleFormat {
    pub fn bytes_per_sample(&self) -> (r: usize)
        ensures
            r as int == bytes_per_sample_spec(*self),
    {
        match self {
            SampleFormat::S16LE => 2,
            SampleFormat::S24LE => 4,
            SampleFormat::S24LE3 => 3,
            SampleFormat::S32LE => 4,
            SampleFormat::FLOAT32LE => 4,
            SampleFormat::FLOAT64LE => 8,
        }
    }
}

/// Shared record the capture actor keeps current; decibel figures and
/// ratios are Q30 fixed-point values.
#[derive(Clone, Debug)]
pub struct CaptureStatus {
    pub update_interval: usize,
    pub measured_samplerate: usize,
    pub signal_range: PrcFmt,
    pub signal_rms: Vec<PrcFmt>,
    pub signal_peak: Vec<PrcFmt>,
    pub state: ProcessingState,
    pub rate_adjust: PrcFmt,
    pub used_channels: Vec<bool>,
}

/// Shared record the playback actor keeps current.
#[derive(Clone, Debug)]
pub struct PlaybackStatus {
    pub update_interval: usize,
    pub clipped_samples: usize,
    pub buffer_level: usize,
    pub signal_rms: Vec<PrcFmt>,
    pub signal_peak: Vec<PrcFmt>,
}

#[derive(Clone, Debug)]
pub struct ProcessingParameters {
    pub volume: PrcFmt,
    pub mute: bool,
}

#[derive(Clone, Debug)]
pub struct ProcessingStatus {
    pub stop_reason: StopReason,
}

/// Why the pipeline stopped, as surfaced to the user.
#[derive(Clone, Debug)]
pub enum StopReason {
    NotStopped,
    Done,
    CaptureError(String),
    PlaybackError(String),
    CaptureFormatChange(usize),
    PlaybackFormatChange(usize),
}

/// The device backends this build can drive, as `(playback, capture)` type
/// names.  File and standard-stream devices are always available; ALSA is
/// the one hardware backend of this build.
pub fn list_supported_devices() -> (r: (Vec<String>, Vec<String>))
    ensures
        r.0@.len() == 3,
        r.0@[0]@ == "File"@,
        r.0@[1]@ == "Stdout"@,
        r.0@[2]@ == "Alsa"@,
        r.1@.len() == 3,
        r.1@[0]@ == "File"@,
        r.1@[1]@ == "Stdin"@,
        r.1@[2]@ == "Alsa"@,
{
    let mut playbacktypes: Vec<String> = Vec::new();
    playbacktypes.push("File".to_string());
    playbacktypes.push("Stdout".to_string());
    playbacktypes.push("Alsa".to_string());
    let mut capturetypes: Vec<String> = Vec::new();
    capturetypes.push("File".to_string());
    capturetypes.push("Stdin".to_string());
    capturetypes.push("Alsa".to_string());
    (playbacktypes, capturetypes)
}

pub trait NewValue<T>: Sized {
    fn new(val: T) -> Self;
}

impl<T> NewValue<T> for T {
    fn new(val: T) -> T {
        val
    }
}

} // verus!


