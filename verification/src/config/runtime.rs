//! Configuration for the daemon itself: audio format, storage, feedback and logging.

use vstd::prelude::*;

use crate::names::Named;
use crate::single::Threshold;

verus! {

/// Daemon-wide settings.
#[derive(Debug, Clone, PartialEq, Eq)]
pub struct DaemonConfig {
    /// Override the control socket path. Defaults to `$XDG_RUNTIME_DIR/voice-commander.sock`.
    pub socket_path: Option<String>,
    /// Let the client start the daemon if it is not already running.
    pub autostart: bool,
    /// Log filter, e.g. `info`.
    pub log_level: String,
}

impl Default for DaemonConfig {
    fn default() -> (result: Self)
        ensures
            result.socket_path is None,
            !result.autostart,
            result.log_level@ == DEFAULT_LOG_LEVEL@,
    {
        DaemonConfig {
            socket_path: None,
            autostart: false,
            log_level: DEFAULT_LOG_LEVEL.to_owned(),
        }
    }
}

/// The log filter when none is set.
pub const DEFAULT_LOG_LEVEL: &'static str = "info";

/// The format recordings are stored in.
#[derive(Debug, Clone, Copy, PartialEq, Eq, Default, Structural)]
pub enum AudioFormat {
    /// Uncompressed. Costs disk, but encoding is free and every speech-to-text API accepts it.
    #[default]
    Wav,
    /// Lossless and roughly half the size.
    Flac,
    /// Lossy and far smaller. Good for archives, but check your provider accepts it.
    Opus,
}

impl AudioFormat {
    /// The file extension, without its dot.
    pub fn extension(self) -> (result: &'static str)
        ensures
            result@ == (match self {
                AudioFormat::Wav => "wav"@,
                AudioFormat::Flac => "flac"@,
                AudioFormat::Opus => "opus"@,
            }),
    {
        match self {
            AudioFormat::Wav => "wav",
            AudioFormat::Flac => "flac",
            AudioFormat::Opus => "opus",
        }
    }
}

/// How captured audio is normalised before being stored.
#[derive(Debug, Clone, Copy, PartialEq, Eq, Structural)]
pub struct AudioConfig {
    /// Target rate for the stored file. 16 kHz is what speech models want, and it is roughly
    /// a sixth of the size of 48 kHz stereo with no accuracy cost for speech.
    pub sample_rate: u32,
    pub channels: u16,
    pub format: AudioFormat,
}

/// Thresholds that turn raw levels into the warnings a user can act on.
///
/// These exist so the feedback can say "your microphone is muted" rather than showing a flat
/// line and leaving the user to work it out.
#[derive(Debug, PartialEq, Eq)]
pub struct LevelsConfig {
    /// Below this peak, treat the input as silent.
    pub silence_dbfs: Threshold,
    /// Below this RMS while speech is expected, warn that the microphone is too far away or
    /// its gain is too low.
    pub too_quiet_dbfs: Threshold,
    /// Above this RMS counts as speech rather than room tone.
    pub speech_dbfs: Threshold,
    /// How long silence must persist during a recording before it is worth mentioning.
    pub silence_warn_after_ms: u32,
}

impl Clone for LevelsConfig {
    fn clone(&self) -> (result: Self)
        ensures
            result == *self,
    {
        LevelsConfig {
            silence_dbfs: self.silence_dbfs.clone(),
            too_quiet_dbfs: self.too_quiet_dbfs.clone(),
            speech_dbfs: self.speech_dbfs.clone(),
            silence_warn_after_ms: self.silence_warn_after_ms,
        }
    }
}

/// Where recordings and logs live, and when they are cleaned up.
#[derive(Debug, Clone, PartialEq, Eq)]
pub struct StorageConfig {
    /// Override the data directory. Defaults to `$XDG_DATA_HOME/voice-commander`.
    pub dir: Option<String>,
    /// Delete recordings older than this. `0` keeps them forever.
    pub max_age_days: u32,
    /// Delete oldest recordings once the directory exceeds this. `0` means no limit.
    pub max_total_bytes: u64,
    /// Keep the audio file once a transcript exists.
    pub keep_audio_after_transcribe: bool,
}

/// What the user is shown while recording and while callbacks run.
///
/// No graphical presenter ships yet. What ships is the event stream that one would consume,
/// which is deliberate: the same contract serves a future overlay, a bar module, or a shell
/// script, and none of them is privileged over the others.
#[derive(Debug, Clone, PartialEq, Eq)]
pub struct FeedbackConfig {
    /// Master switch. Off means no presenter is started and no feedback events are emitted.
    pub enabled: bool,
    /// Emit the recording-and-levels events that drive a "listening" indicator.
    pub listening: bool,
    /// Emit the per-callback progress events that drive a "processing" indicator.
    pub processing: bool,
    /// How long a processing indicator should linger after the last callback finishes, so
    /// the result is readable rather than a flash.
    pub processing_linger_ms: u32,
    /// Minimum spacing between `level` events.
    pub level_interval_ms: u32,
    /// Named entries from `[presenters.*]` to run.
    pub presenters: Vec<String>,
}

/// One named entry under `[presenters.*]`.
#[derive(Debug, Clone, PartialEq, Eq)]
pub struct PresenterConfig {
    pub kind: PresenterKind,
}

#[derive(Debug, Clone, PartialEq, Eq)]
pub enum PresenterKind {
    /// Publish events to anything connected to the control socket.
    Socket(SocketPresenter),
    /// Run a command for each event, with the event JSON on standard input.
    Command(CommandPresenter),
    /// Raise desktop notifications at the start and end of a session.
    Notify(NotifyPresenter),
}

impl PresenterKind {
    /// The `type` value that stands for this variant.
    pub fn kind_name(&self) -> (result: &'static str)
        ensures
            result@ == (match self {
                PresenterKind::Socket(_) => "socket"@,
                PresenterKind::Command(_) => "command"@,
                PresenterKind::Notify(_) => "notify"@,
            }),
    {
        match self {
            PresenterKind::Socket(_) => "socket",
            PresenterKind::Command(_) => "command",
            PresenterKind::Notify(_) => "notify",
        }
    }
}

#[derive(Debug, Clone, Copy, PartialEq, Eq, Default, Structural)]
pub struct SocketPresenter {}

#[derive(Debug, Clone, PartialEq, Eq)]
pub struct CommandPresenter {
    pub cmd: Vec<String>,
    pub env: Named<String>,
    /// Only forward these event kinds. Empty forwards everything.
    pub events: Vec<String>,
}

#[derive(Debug, Clone, Copy, PartialEq, Eq, Default, Structural)]
pub struct NotifyPresenter {
    /// Also notify on every callback result, not just the session outcome.
    pub per_sink: bool,
}

} // verus!
