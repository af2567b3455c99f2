//! The event stream.
//!
//! This is a public, versioned contract, not an internal detail. No graphical indicator ships
//! with voice-commander; what ships is this stream, and an overlay has no more access to the
//! daemon than a shell script that follows it.
//!
//! Two indicators are anticipated, and the event set is shaped around what each one needs: a
//! listening indicator, visible only while the user is speaking, and a processing indicator,
//! which lists every callback with its progress.

use vstd::prelude::*;

use crate::clock::Timestamp;
use crate::session::record::SinkOutcomeView;
use crate::session::{InputWarningKind, Outcome, SessionId, SinkOutcome, StopReason};
use crate::single::Single;
use crate::EVENT_SCHEMA_VERSION;

verus! {

/// A sink as it appears in the plan announced by [`Event::PipelineStarted`]: everything an
/// indicator needs to draw the row before the sink has done anything.
#[derive(Debug, Clone, PartialEq, Eq)]
pub struct PlannedSink {
    /// Position in the fan-out, and the key that [`Event::SinkStarted`] and
    /// [`Event::SinkFinished`] refer back to. Not the name: the same sink may be listed
    /// twice, and two rows that share an identifier cannot be told apart.
    pub id: u32,
    pub name: String,
    /// The sink's `type`, so a row can carry an icon without reading the config.
    pub kind: String,
    /// Whether this sink will be skipped if there is no transcript, which lets an indicator
    /// show it as conditional from the start.
    pub requires_text: bool,
}

/// What a row of the plan says.
pub struct PlannedSinkView {
    pub id: u32,
    pub name: Seq<char>,
    pub kind: Seq<char>,
    pub requires_text: bool,
}

impl View for PlannedSink {
    type V = PlannedSinkView;

    open spec fn view(&self) -> PlannedSinkView {
        PlannedSinkView {
            id: self.id,
            name: self.name@,
            kind: self.kind@,
            requires_text: self.requires_text,
        }
    }
}

/// What the rows of a plan say.
pub open spec fn planned(sinks: Seq<PlannedSink>) -> Seq<PlannedSinkView> {
    sinks.map_values(|sink: PlannedSink| sink@)
}

/// What an optional piece of text says.
pub open spec fn optional(text: Option<String>) -> Option<Seq<char>> {
    match text {
        Some(text) => Some(text@),
        None => None,
    }
}

/// Why the capture device was closed.
#[derive(Debug, Clone, Copy, PartialEq, Eq, Structural)]
pub enum DeviceCloseReason {
    /// `idle_release_secs` elapsed. The battery-saving path.
    Idle,
    /// The recording finished, in `on_demand` mode.
    RecordingEnded,
    /// The device disappeared: unplugged, or the default source changed.
    Lost,
    /// The daemon is shutting down or reloading.
    Shutdown,
}

/// Where an error came from.
#[derive(Debug, Clone, Copy, PartialEq, Eq, Structural)]
pub enum Stage {
    Capture,
    Storage,
    Transcription,
    Sink,
    Config,
}

/// Everything the daemon announces.
#[derive(Debug, Clone, PartialEq, Eq)]
pub enum Event {
    /// The daemon is up and accepting commands.
    DaemonReady { version: String, socket: String },
    /// Configuration was reloaded. `warnings` is the count, so an indicator can prompt the
    /// user to go and read them.
    ConfigReloaded { warnings: usize },
    /// The capture device was opened, with the format actually negotiated, which may not be
    /// what was asked for.
    DeviceOpened { device: String, sample_rate: u32, channels: u16 },
    /// The capture device was let go of.
    DeviceClosed { reason: DeviceCloseReason },
    /// Recording began. `pre_roll_ms` is how much audio from before the keypress was actually
    /// available, which is not necessarily the configured amount.
    RecordingStarted { segment: u32, pre_roll_ms: u32, device: String },
    /// A periodic level measurement, throttled to `feedback.level_interval_ms` and emitted only
    /// while recording. `speech` means above the speech threshold, as opposed to room tone.
    Level { rms_dbfs: Single, peak_dbfs: Single, speech: bool, clipping: bool },
    /// Something about the input the user should act on.
    InputWarning { kind: InputWarningKind, detail: Option<String> },
    /// A segment ended. `reason` distinguishes a normal release from the watchdog firing: one is
    /// expected, the other means a keybind is misconfigured.
    RecordingStopped { segment: u32, duration_ms: u64, reason: StopReason },
    /// The key was released and the continuation window has opened. An indicator should stay
    /// visible for `ms` rather than disappearing, since the session is not over yet.
    CooldownStarted { ms: u32 },
    /// The user pressed again inside the window, so this is the same session continuing.
    RecordingResumed { segment: u32, resumed_after_ms: u64 },
    /// The session was abandoned; nothing downstream will run.
    SessionCancelled { reason: String },
    /// The audio is written. The listening indicator's cue to disappear.
    SessionFinalized { audio_path: String, total_ms: u64, segments: u32 },
    /// The pipeline is about to run, announcing its complete plan, so that a progress panel can
    /// be drawn in full before anything happens.
    PipelineStarted { transcriber: Option<String>, sinks: Vec<PlannedSink> },
    /// Transcription began.
    TranscribeStarted { transcriber: String },
    /// Transcription produced text, possibly none.
    TranscribeDone { chars: usize, latency_ms: u64, language: Option<String> },
    /// Transcription did not work.
    TranscribeFailed { error: String, latency_ms: u64 },
    /// A callback began.
    SinkStarted { id: u32, name: String },
    /// A callback resolved: the tick, the cross or the greyed-out row.
    SinkFinished { id: u32, name: String, outcome: SinkOutcome, latency_ms: u64, attempts: u32 },
    /// Every callback has resolved. After this plus `feedback.processing_linger_ms`, a progress
    /// panel should close.
    PipelineFinished { ok: usize, failed: usize, skipped: usize, total_ms: u64, outcome: Outcome },
    /// A failure that is nobody's callback.
    Error { stage: Stage, message: String },
}

/// What an event says.
pub enum EventView {
    DaemonReady { version: Seq<char>, socket: Seq<char> },
    ConfigReloaded { warnings: usize },
    DeviceOpened { device: Seq<char>, sample_rate: u32, channels: u16 },
    DeviceClosed { reason: DeviceCloseReason },
    RecordingStarted { segment: u32, pre_roll_ms: u32, device: Seq<char> },
    Level { rms_dbfs: Single, peak_dbfs: Single, speech: bool, clipping: bool },
    InputWarning { kind: InputWarningKind, detail: Option<Seq<char>> },
    RecordingStopped { segment: u32, duration_ms: u64, reason: StopReason },
    CooldownStarted { ms: u32 },
    RecordingResumed { segment: u32, resumed_after_ms: u64 },
    SessionCancelled { reason: Seq<char> },
    SessionFinalized { audio_path: Seq<char>, total_ms: u64, segments: u32 },
    PipelineStarted { transcriber: Option<Seq<char>>, sinks: Seq<PlannedSinkView> },
    TranscribeStarted { transcriber: Seq<char> },
    TranscribeDone { chars: usize, latency_ms: u64, language: Option<Seq<char>> },
    TranscribeFailed { error: Seq<char>, latency_ms: u64 },
    SinkStarted { id: u32, name: Seq<char> },
    SinkFinished { id: u32, name: Seq<char>, outcome: SinkOutcomeView, latency_ms: u64, attempts: u32 },
    PipelineFinished { ok: usize, failed: usize, skipped: usize, total_ms: u64, outcome: Outcome },
    Error { stage: Stage, message: Seq<char> },
}

impl View for Event {
    type V = EventView;

    open spec fn view(&self) -> EventView {
        match self {
            Event::DaemonReady { version, socket } => EventView::DaemonReady {
                version: version@,
                socket: socket@,
            },
            Event::ConfigReloaded { warnings } => EventView::ConfigReloaded {
                warnings: *warnings,
            },
            Event::DeviceOpened { device, sample_rate, channels } => EventView::DeviceOpened {
                device: device@,
                sample_rate: *sample_rate,
                channels: *channels,
            },
            Event::DeviceClosed { reason } => EventView::DeviceClosed {
                reason: *reason,
            },
            Event::RecordingStarted { segment, pre_roll_ms, device } => EventView::RecordingStarted {
                segment: *segment,
                pre_roll_ms: *pre_roll_ms,
                device: device@,
            },
            Event::Level { rms_dbfs, peak_dbfs, speech, clipping } => EventView::Level {
                rms_dbfs: *rms_dbfs,
                peak_dbfs: *peak_dbfs,
                speech: *speech,
                clipping: *clipping,
            },
            Event::InputWarning { kind, detail } => EventView::InputWarning {
                kind: *kind,
                detail: optional(*detail),
            },
            Event::RecordingStopped { segment, duration_ms, reason } => EventView::RecordingStopped {
                segment: *segment,
                duration_ms: *duration_ms,
                reason: *reason,
            },
            Event::CooldownStarted { ms } => EventView::CooldownStarted {
                ms: *ms,
            },
            Event::RecordingResumed { segment, resumed_after_ms } => EventView::RecordingResumed {
                segment: *segment,
                resumed_after_ms: *resumed_after_ms,
            },
            Event::SessionCancelled { reason } => EventView::SessionCancelled {
                reason: reason@,
            },
            Event::SessionFinalized { audio_path, total_ms, segments } => EventView::SessionFinalized {
                audio_path: audio_path@,
                total_ms: *total_ms,
                segments: *segments,
            },
            Event::PipelineStarted { transcriber, sinks } => EventView::PipelineStarted {
                transcriber: optional(*transcriber),
                sinks: planned(sinks@),
            },
            Event::TranscribeStarted { transcriber } => EventView::TranscribeStarted {
                transcriber: transcriber@,
            },
            Event::TranscribeDone { chars, latency_ms, language } => EventView::TranscribeDone {
                chars: *chars,
                latency_ms: *latency_ms,
                language: optional(*language),
            },
            Event::TranscribeFailed { error, latency_ms } => EventView::TranscribeFailed {
                error: error@,
                latency_ms: *latency_ms,
            },
            Event::SinkStarted { id, name } => EventView::SinkStarted {
                id: *id,
                name: name@,
            },
            Event::SinkFinished { id, name, outcome, latency_ms, attempts } => EventView::SinkFinished {
                id: *id,
                name: name@,
                outcome: outcome@,
                latency_ms: *latency_ms,
                attempts: *attempts,
            },
            Event::PipelineFinished { ok, failed, skipped, total_ms, outcome } => EventView::PipelineFinished {
                ok: *ok,
                failed: *failed,
                skipped: *skipped,
                total_ms: *total_ms,
                outcome: *outcome,
            },
            Event::Error { stage, message } => EventView::Error {
                stage: *stage,
                message: message@,
            },
        }
    }
}

impl EventView {
    /// The value of the `event` field.
    pub open spec fn kind(self) -> Seq<char> {
        match self {
            EventView::DaemonReady { .. } => "daemon_ready"@,
            EventView::ConfigReloaded { .. } => "config_reloaded"@,
            EventView::DeviceOpened { .. } => "device_opened"@,
            EventView::DeviceClosed { .. } => "device_closed"@,
            EventView::RecordingStarted { .. } => "recording_started"@,
            EventView::Level { .. } => "level"@,
            EventView::InputWarning { .. } => "input_warning"@,
            EventView::RecordingStopped { .. } => "recording_stopped"@,
            EventView::CooldownStarted { .. } => "cooldown_started"@,
            EventView::RecordingResumed { .. } => "recording_resumed"@,
            EventView::SessionCancelled { .. } => "session_cancelled"@,
            EventView::SessionFinalized { .. } => "session_finalized"@,
            EventView::PipelineStarted { .. } => "pipeline_started"@,
            EventView::TranscribeStarted { .. } => "transcribe_started"@,
            EventView::TranscribeDone { .. } => "transcribe_done"@,
            EventView::TranscribeFailed { .. } => "transcribe_failed"@,
            EventView::SinkStarted { .. } => "sink_started"@,
            EventView::SinkFinished { .. } => "sink_finished"@,
            EventView::PipelineFinished { .. } => "pipeline_finished"@,
            EventView::Error { .. } => "error"@,
        }
    }

    /// Whether this event belongs to the listening indicator.
    pub open spec fn is_listening(self) -> bool {
        ||| self is RecordingStarted
        ||| self is Level
        ||| self is InputWarning
        ||| self is RecordingStopped
        ||| self is CooldownStarted
        ||| self is RecordingResumed
        ||| self is SessionFinalized
    }

    /// Whether this event belongs to the processing indicator.
    pub open spec fn is_processing(self) -> bool {
        ||| self is PipelineStarted
        ||| self is TranscribeStarted
        ||| self is TranscribeDone
        ||| self is TranscribeFailed
        ||| self is SinkStarted
        ||| self is SinkFinished
        ||| self is PipelineFinished
    }
}

impl Event {
    /// The value of the `event` field, for filtering.
    ///
    /// A presenter's allow-list is matched against this, so a bar module can ask for
    /// `recording_started` and `recording_stopped` and not be woken twenty times a second by
    /// level updates.
    pub fn kind(&self) -> (result: &'static str)
        ensures
            result@ == self@.kind(),
    {
        match self {
            Event::DaemonReady { .. } => "daemon_ready",
            Event::ConfigReloaded { .. } => "config_reloaded",
            Event::DeviceOpened { .. } => "device_opened",
            Event::DeviceClosed { .. } => "device_closed",
            Event::RecordingStarted { .. } => "recording_started",
            Event::Level { .. } => "level",
            Event::InputWarning { .. } => "input_warning",
            Event::RecordingStopped { .. } => "recording_stopped",
            Event::CooldownStarted { .. } => "cooldown_started",
            Event::RecordingResumed { .. } => "recording_resumed",
            Event::SessionCancelled { .. } => "session_cancelled",
            Event::SessionFinalized { .. } => "session_finalized",
            Event::PipelineStarted { .. } => "pipeline_started",
            Event::TranscribeStarted { .. } => "transcribe_started",
            Event::TranscribeDone { .. } => "transcribe_done",
            Event::TranscribeFailed { .. } => "transcribe_failed",
            Event::SinkStarted { .. } => "sink_started",
            Event::SinkFinished { .. } => "sink_finished",
            Event::PipelineFinished { .. } => "pipeline_finished",
            Event::Error { .. } => "error",
        }
    }

    /// Whether this event belongs to the listening indicator.
    pub fn is_listening_feedback(&self) -> (result: bool)
        ensures
            result == self@.is_listening(),
    {
        match self {
            Event::RecordingStarted { .. }
            | Event::Level { .. }
            | Event::InputWarning { .. }
            | Event::RecordingStopped { .. }
            | Event::CooldownStarted { .. }
            | Event::RecordingResumed { .. }
            | Event::SessionFinalized { .. } => true,
            _ => false,
        }
    }

    /// Whether this event belongs to the processing indicator.
    pub fn is_processing_feedback(&self) -> (result: bool)
        ensures
            result == self@.is_processing(),
    {
        match self {
            Event::PipelineStarted { .. }
            | Event::TranscribeStarted { .. }
            | Event::TranscribeDone { .. }
            | Event::TranscribeFailed { .. }
            | Event::SinkStarted { .. }
            | Event::SinkFinished { .. }
            | Event::PipelineFinished { .. } => true,
            _ => false,
        }
    }
}

/// One line of the event stream.
///
/// The envelope carries what every consumer needs to route an event: when, which session,
/// which profile.
#[derive(Debug, Clone, PartialEq, Eq)]
pub struct Envelope {
    /// Schema version. A consumer that does not recognise it should say so rather than guess.
    pub v: u32,
    pub ts: Timestamp,
    /// Absent for daemon-wide events that belong to no session.
    pub session: Option<SessionId>,
    pub profile: Option<String>,
    pub event: Event,
}

/// What a line of the event stream says.
pub struct EnvelopeView {
    pub v: u32,
    pub ts: Timestamp,
    pub session: Option<Seq<char>>,
    pub profile: Option<Seq<char>>,
    pub event: EventView,
}

impl View for Envelope {
    type V = EnvelopeView;

    open spec fn view(&self) -> EnvelopeView {
        EnvelopeView {
            v: self.v,
            ts: self.ts,
            session: match self.session {
                Some(session) => Some(session@),
                None => None,
            },
            profile: optional(self.profile),
            event: self.event@,
        }
    }
}

/// The line for an event that belongs to a session.
pub open spec fn session_line(
    ts: Timestamp,
    session: Seq<char>,
    profile: Seq<char>,
    event: EventView,
) -> EnvelopeView {
    EnvelopeView {
        v: EVENT_SCHEMA_VERSION,
        ts,
        session: Some(session),
        profile: Some(profile),
        event,
    }
}

/// The line for an event that belongs to the daemon.
pub open spec fn daemon_line(ts: Timestamp, event: EventView) -> EnvelopeView {
    EnvelopeView { v: EVENT_SCHEMA_VERSION, ts, session: None, profile: None, event }
}

impl Envelope {
    /// Wrap an event that belongs to a session.
    pub fn for_session(ts: Timestamp, session: SessionId, profile: String, event: Event) -> (result:
        Self)
        ensures
            result@ == session_line(ts, session@, profile@, event@),
    {
        Envelope {
            v: EVENT_SCHEMA_VERSION,
            ts,
            session: Some(session),
            profile: Some(profile),
            event,
        }
    }

    /// Wrap an event that belongs to the daemon rather than to any one session.
    pub fn for_daemon(ts: Timestamp, event: Event) -> (result: Self)
        ensures
            result@ == daemon_line(ts, event@),
    {
        Envelope { v: EVENT_SCHEMA_VERSION, ts, session: None, profile: None, event }
    }
}

/// The two indicators never compete for an event: each belongs to at most one of them.
pub proof fn law_an_event_belongs_to_at_most_one_indicator(event: EventView)
    ensures
        !(event.is_listening() && event.is_processing()),
{
}

/// Every line carries the version of the format, the instant it was written at and its event;
/// a line of a session names the session and its profile, and one of the daemon names neither.
pub proof fn law_a_line_names_what_it_belongs_to(
    ts: Timestamp,
    session: Seq<char>,
    profile: Seq<char>,
    event: EventView,
)
    ensures
        session_line(ts, session, profile, event).v == 1,
        session_line(ts, session, profile, event).ts == ts,
        session_line(ts, session, profile, event).session == Some(session),
        session_line(ts, session, profile, event).profile == Some(profile),
        session_line(ts, session, profile, event).event == event,
        daemon_line(ts, event).v == 1,
        daemon_line(ts, event).ts == ts,
        daemon_line(ts, event).session is None,
        daemon_line(ts, event).profile is None,
        daemon_line(ts, event).event == event,
{
}

} // verus!
