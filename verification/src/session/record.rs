//! What gets written to `session.json` beside every recording.
//!
//! This is the tuning data. The point of recording key-down and key-up separately, of
//! tracking how much speech landed inside the pre-roll window, and of noting how close to
//! the cooldown deadline a continuation arrived, is that after a few weeks of real use those
//! numbers say what `pre_roll_ms` and `cooldown_ms` *should* be, rather than leaving the
//! user to guess and re-guess.

use vstd::prelude::*;

use super::id::SessionId;
use crate::clock::Timestamp;
use crate::config::{AudioFormat, CaptureMode, GapMode, TriggerMode};
use crate::single::Single;

verus! {

/// Why a segment of recording ended.
///
/// Worth distinguishing: a session that ends on `Watchdog` means a release keybind was
/// missed, which is a configuration problem the user would otherwise never diagnose.
#[derive(Debug, Clone, Copy, PartialEq, Eq, Structural)]
pub enum StopReason {
    /// The key was released, or the toggle was pressed again. The normal case.
    Released,
    /// `max_recording_secs` elapsed, almost always a release keybind that never fired.
    Watchdog,
    /// `max_total_secs` elapsed across the whole session.
    TotalLimit,
    /// `continuation.max_segments` was reached.
    SegmentLimit,
    /// The user cancelled.
    Cancelled,
    /// The daemon is shutting down.
    Shutdown,
}

/// One press-and-release within a session. A session has more than one of these exactly when
/// the user continued it during the cooldown window.
#[derive(Debug, Clone, Copy, PartialEq, Eq, Structural)]
pub struct Segment {
    pub index: u32,
    pub key_down_at: Timestamp,
    pub key_up_at: Option<Timestamp>,
    /// How much audio from before the keypress was actually available. Less than the
    /// configured `pre_roll_ms` when the device had only just opened.
    pub pre_roll_ms: u32,
    /// How much of that pre-roll contained speech rather than room tone.
    ///
    /// This is the number that says whether `pre_roll_ms` is set correctly. Consistently
    /// near the configured value means speech is still being clipped and it should go up;
    /// consistently zero means it is only costing memory.
    pub speech_in_pre_roll_ms: u32,
    /// Where this segment starts within the finished audio file.
    pub start_offset_ms: u64,
    pub duration_ms: u64,
    /// For a continuation, how long after the previous release the user pressed again.
    ///
    /// The other half of the tuning story: if these cluster just under `cooldown_ms`, the
    /// window is too short and continuations are being missed.
    pub resumed_after_ms: Option<u64>,
    pub stop_reason: StopReason,
}

/// What the capture layer was actually doing, as opposed to what was configured.
#[derive(Debug, PartialEq, Eq)]
pub struct CaptureSummary {
    pub mode: CaptureMode,
    /// The device the audio actually came from, by name.
    pub device: String,
    pub configured_pre_roll_ms: u32,
    pub gap: GapMode,
    /// Set when `gap = "keep"` was requested but the capture mode could not honour it.
    pub gap_downgraded_to: Option<GapMode>,
}

impl Clone for CaptureSummary {
    fn clone(&self) -> (result: Self)
        ensures
            result == *self,
    {
        CaptureSummary {
            mode: self.mode,
            device: self.device.clone(),
            configured_pre_roll_ms: self.configured_pre_roll_ms,
            gap: self.gap,
            gap_downgraded_to: self.gap_downgraded_to,
        }
    }
}

/// The stored recording.
#[derive(Debug, PartialEq, Eq)]
pub struct AudioSummary {
    pub path: String,
    pub format: AudioFormat,
    pub sample_rate: u32,
    pub channels: u16,
    pub bytes: u64,
    pub duration_ms: u64,
}

impl Clone for AudioSummary {
    fn clone(&self) -> (result: Self)
        ensures
            result == *self,
    {
        AudioSummary {
            path: self.path.clone(),
            format: self.format,
            sample_rate: self.sample_rate,
            channels: self.channels,
            bytes: self.bytes,
            duration_ms: self.duration_ms,
        }
    }
}

/// Signal statistics for the session, summarised from the per-block level measurements.
#[derive(Debug, Clone, Copy, PartialEq, Eq, Structural)]
pub struct LevelSummary {
    pub peak_dbfs: Single,
    pub mean_rms_dbfs: Single,
    /// Audio above the speech threshold. Compare against `duration_ms` to see how much of a
    /// recording was the user hesitating.
    pub speech_ms: u64,
    pub silence_ms: u64,
    pub clipped_samples: u64,
}

/// Something about the input that the user would want to know.
#[derive(Debug, Clone, Copy, PartialEq, Eq, Structural)]
pub enum InputWarningKind {
    /// No capture device could be opened at all.
    NoDevice,
    /// The source exists but is muted, the single most common cause of an empty recording.
    DeviceMuted,
    /// Nothing above the silence floor for long enough to be worth saying.
    Silence,
    /// Audible, but quiet enough that transcription accuracy will suffer.
    TooQuiet,
    /// Samples at full scale; the input gain is too high.
    Clipping,
    /// The audio backend dropped buffers, so the recording has gaps.
    Xrun,
}

/// The result of transcription, when a profile asked for it.
#[derive(Debug, Clone, PartialEq, Eq)]
pub struct TranscriptRecord {
    /// The name of the `[transcribers.*]` entry that produced this.
    pub transcriber: String,
    pub path: Option<String>,
    pub chars: usize,
    pub latency_ms: u64,
    pub language: Option<String>,
    pub error: Option<String>,
}

/// Why a sink did not run.
#[derive(Debug, Clone, Copy, PartialEq, Eq, Structural)]
pub enum SkipReason {
    /// The sink needs a transcript and the profile produced none.
    NoTranscript,
    /// Transcription was configured but failed.
    TranscriptionFailed,
    /// An earlier sink failed with `on_error = "fail_session"`.
    EarlierSinkFailed,
    /// The session was cancelled before the sink ran.
    Cancelled,
}

/// How one callback ended.
///
/// Modelled as a closed set rather than a boolean plus optional strings, because this is
/// precisely what an indicator renders: a tick, a cross, or a greyed-out row with a reason.
#[derive(Debug, Clone, PartialEq, Eq)]
pub enum SinkOutcome {
    Okay,
    Failed { error: String },
    Skipped { reason: SkipReason },
}

/// What an outcome says.
pub enum SinkOutcomeView {
    Okay,
    Failed { error: Seq<char> },
    Skipped { reason: SkipReason },
}

impl View for SinkOutcome {
    type V = SinkOutcomeView;

    open spec fn view(&self) -> SinkOutcomeView {
        match self {
            SinkOutcome::Okay => SinkOutcomeView::Okay,
            SinkOutcome::Failed { error } => SinkOutcomeView::Failed { error: error@ },
            SinkOutcome::Skipped { reason } => SinkOutcomeView::Skipped { reason: *reason },
        }
    }
}

impl SinkOutcome {
    pub fn is_ok(&self) -> (result: bool)
        ensures
            result == (self is Okay),
    {
        match self {
            SinkOutcome::Okay => true,
            _ => false,
        }
    }
}

/// One callback's execution.
#[derive(Debug, Clone, PartialEq, Eq)]
pub struct SinkRecord {
    /// Position in the fan-out. Stable within a session, and what the event stream uses to
    /// correlate a `sink_finished` with the row it belongs to: a name would be ambiguous
    /// when the same sink is listed twice.
    pub id: u32,
    /// The name of the `[sinks.*]` entry.
    pub name: String,
    /// Its `type`, so an indicator can show an icon without consulting the configuration.
    pub kind: String,
    pub outcome: SinkOutcome,
    pub latency_ms: u64,
    /// How many attempts it took, including the successful one.
    pub attempts: u32,
}

/// How the session ended overall.
#[derive(Debug, Clone, Copy, PartialEq, Eq, Structural)]
pub enum Outcome {
    /// Everything that was meant to run, ran.
    Okay,
    /// The audio was captured, but something downstream failed.
    Partial,
    /// Nothing usable came out of it.
    Failed,
    /// The user cancelled before it finished.
    Cancelled,
}

/// The complete record of one session, written to `session.json` and handed to callbacks.
#[derive(Debug, Clone, PartialEq, Eq)]
pub struct SessionRecord {
    /// Schema version, matching [`crate::EVENT_SCHEMA_VERSION`].
    pub v: u32,
    pub id: SessionId,
    pub profile: String,
    pub trigger: TriggerMode,
    pub started_at: Timestamp,
    pub finalized_at: Option<Timestamp>,
    pub capture: CaptureSummary,
    pub segments: Vec<Segment>,
    /// How many times this session was continued during its cooldown window.
    pub continuations: u32,
    pub audio: AudioSummary,
    pub levels: LevelSummary,
    pub warnings: Vec<InputWarningKind>,
    pub transcript: Option<TranscriptRecord>,
    pub sinks: Vec<SinkRecord>,
    pub outcome: Outcome,
}

/// How long segments last together.
pub open spec fn total_of(segments: Seq<Segment>) -> int
    decreases segments.len(),
{
    if segments.len() == 0 {
        0
    } else {
        total_of(segments.drop_last()) + segments.last().duration_ms
    }
}

/// Whether any segment ended on the watchdog.
pub open spec fn watchdog_fired(segments: Seq<Segment>) -> bool {
    exists|i: int| 0 <= i < segments.len() && #[trigger] segments[i].stop_reason == StopReason::Watchdog
}

proof fn lemma_total_ascends(segments: Seq<Segment>, n: int)
    requires
        0 <= n <= segments.len(),
    ensures
        0 <= total_of(segments.take(n)) <= total_of(segments),
    decreases segments.len(),
{
    if n == segments.len() {
        assert(segments.take(n) =~= segments);
        if n > 0 {
            assert(segments.drop_last().take(n - 1) =~= segments.drop_last());
            lemma_total_ascends(segments.drop_last(), n - 1);
        }
    } else {
        assert(segments.drop_last().take(n) =~= segments.take(n));
        lemma_total_ascends(segments.drop_last(), n);
    }
}

impl SessionRecord {
    /// Total audio, across every segment.
    pub fn total_duration_ms(&self) -> (result: u64)
        requires
            total_of(self.segments@) <= u64::MAX,
        ensures
            result == total_of(self.segments@),
    {
        let mut total: u64 = 0;
        let mut i: usize = 0;
        while i < self.segments.len()
            invariant
                i <= self.segments.len(),
                total_of(self.segments@) <= u64::MAX,
                total == total_of(self.segments@.take(i as int)),
            decreases self.segments.len() - i,
        {
            proof {
                assert(self.segments@.take(i + 1).drop_last() =~= self.segments@.take(i as int));
                lemma_total_ascends(self.segments@, i + 1);
            }
            total += self.segments[i].duration_ms;
            i += 1;
        }
        assert(self.segments@.take(i as int) =~= self.segments@);
        total
    }

    /// Whether a release keybind was missed, i.e. any segment hit the watchdog.
    ///
    /// A user seeing this repeatedly has a binding problem, not a voice problem.
    pub fn hit_watchdog(&self) -> (result: bool)
        ensures
            result == watchdog_fired(self.segments@),
    {
        let mut i: usize = 0;
        while i < self.segments.len()
            invariant
                i <= self.segments.len(),
                forall|j: int|
                    0 <= j < i ==> #[trigger] self.segments@[j].stop_reason != StopReason::Watchdog,
            decreases self.segments.len() - i,
        {
            if self.segments[i].stop_reason == StopReason::Watchdog {
                return true;
            }
            i += 1;
        }
        false
    }
}

/// The length of a session is that of its segments together, and it hit the watchdog exactly
/// when a segment did: one more segment adds its own length and its own reason.
pub proof fn law_a_segment_adds_to_its_session(segments: Seq<Segment>, segment: Segment)
    ensures
        total_of(Seq::empty()) == 0,
        total_of(segments.push(segment)) == total_of(segments) + segment.duration_ms,
        !watchdog_fired(Seq::empty()),
        watchdog_fired(segments.push(segment)) <==> watchdog_fired(segments)
            || segment.stop_reason == StopReason::Watchdog,
{
    let more = segments.push(segment);
    assert(more.drop_last() =~= segments);
    assert(more[segments.len() as int] == segment);
    if watchdog_fired(segments) {
        let i = choose|i: int|
            0 <= i < segments.len() && #[trigger] segments[i].stop_reason == StopReason::Watchdog;
        assert(more[i].stop_reason == StopReason::Watchdog);
    }
    if watchdog_fired(more) && segment.stop_reason != StopReason::Watchdog {
        let i = choose|i: int|
            0 <= i < more.len() && #[trigger] more[i].stop_reason == StopReason::Watchdog;
        assert(segments[i].stop_reason == StopReason::Watchdog);
    }
}

} // verus!
