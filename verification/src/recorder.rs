//! The session state machine.
//!
//! Releasing the key does **not** end a session. It opens the continuation window, and
//! pressing again inside that window resumes the same recording: the case where a user
//! says their piece, lets go, and immediately remembers one more thing.
//!
//! ```text
//! start ──► Recording(segment 0)
//!             │ stop
//!             ▼
//!        Cooling ─── start again within cooldown_ms ──► Recording(segment 1) ──► …
//!             │
//!             │ window expires
//!             ▼
//!        Finalized ──► audio, timings, level summary
//! ```
//!
//! Everything here is driven by explicit timestamps rather than by reading a clock, so what
//! the machine does one millisecond inside the window, or one outside, is stated exactly.

use vstd::prelude::*;

use crate::audio::level::{samples_to_ms, LevelSnapshot, LevelTotals};
use crate::clock::{Moment, Timestamp};
use crate::config::{CaptureMode, GapMode, LevelsConfig, Profile};
use crate::session::{CaptureSummary, LevelSummary, Segment, StopReason};
use crate::single::Single;

verus! {

/// What the caller should do as a result of a transition.
#[derive(Debug, Clone, Copy, PartialEq, Eq, Structural)]
pub enum Transition {
    /// Nothing changed, for instance stopping something already stopped.
    Nothing,
    /// A new session began.
    Started { segment: u32, pre_roll_ms: u32 },
    /// An existing session picked up where it left off.
    Resumed { segment: u32, resumed_after_ms: u64 },
    /// A segment ended and the continuation window is open.
    Stopped { segment: u32, duration_ms: u64, reason: StopReason, cooldown_ms: u32 },
    /// The session is over and ready to be written out.
    Finalized,
    /// The session was abandoned; nothing downstream should run.
    Cancelled,
}

/// Where a recording is in its life.
#[derive(Debug, Clone, Copy, PartialEq, Eq, Structural)]
pub enum Phase {
    Idle,
    Recording,
    Cooling,
}

/// A finished recording, ready to be stored.
#[derive(Debug)]
pub struct Finished {
    pub audio: Vec<u32>,
    pub segments: Vec<Segment>,
    pub continuations: u32,
    pub levels: LevelSummary,
    pub capture: CaptureSummary,
    pub started_at: Timestamp,
}

impl Finished {
    /// Whether this is what a recorder captured, with these levels; `now` stands in for the
    /// start of a session that never started.
    pub open spec fn holds(
        self,
        recorder: RecorderView,
        peak_dbfs: Single,
        mean_rms_dbfs: Single,
        now: Timestamp,
    ) -> bool {
        &&& self.audio@ == recorder.audio
        &&& self.segments@ == recorder.segments
        &&& self.continuations == recorder.continuations
        &&& self.levels == summary_of(recorder.totals, peak_dbfs, mean_rms_dbfs)
        &&& self.capture.mode == recorder.settings.capture_mode
        &&& self.capture.device@ == recorder.device
        &&& self.capture.configured_pre_roll_ms == recorder.settings.configured_pre_roll_ms
        &&& self.capture.gap == recorder.settings.gap
        &&& self.capture.gap_downgraded_to == recorder.settings.gap_downgraded_to
        &&& self.started_at == (match recorder.started_at {
            Some(started_at) => started_at,
            None => now,
        })
    }
}

/// One segment while it is still being recorded.
#[derive(Debug, Clone, Copy, PartialEq, Eq, Structural)]
pub struct OpenSegment {
    pub index: u32,
    pub key_down_at: Timestamp,
    pub key_down: Moment,
    pub pre_roll_ms: u32,
    pub speech_in_pre_roll_ms: u32,
    pub start_offset_ms: u64,
    pub resumed_after_ms: Option<u64>,
}

/// What a recorder was set up with.
#[derive(Debug, Clone, Copy, PartialEq, Eq, Structural)]
pub struct Settings {
    pub sample_rate: u32,
    pub capture_mode: CaptureMode,
    pub configured_pre_roll_ms: u32,
    pub cooldown_ms: u32,
    pub max_recording_secs: u32,
    pub max_total_secs: u32,
    pub gap: GapMode,
    pub gap_downgraded_to: Option<GapMode>,
    pub silence_ms: u32,
    pub max_segments: u32,
}

/// The settings a profile asks for.
///
/// `keep` needs audio from a device that stayed open. In on_demand mode there is none, so it
/// becomes `drop`, and the summary says so: otherwise the user could not explain the jump in
/// their stitched recording.
pub open spec fn settings_for(profile: Profile, sample_rate: u32) -> Settings {
    let downgraded = profile.capture.mode == CaptureMode::OnDemand && profile.continuation.gap
        == GapMode::Keep;
    Settings {
        sample_rate,
        capture_mode: profile.capture.mode,
        configured_pre_roll_ms: profile.capture.pre_roll_ms,
        cooldown_ms: profile.session.cooldown_ms,
        max_recording_secs: profile.session.max_recording_secs,
        max_total_secs: profile.session.max_total_secs,
        gap: if downgraded { GapMode::Drop } else { profile.continuation.gap },
        gap_downgraded_to: if downgraded { Some(GapMode::Drop) } else { None },
        silence_ms: profile.continuation.silence_ms,
        max_segments: profile.continuation.max_segments,
    }
}

/// Whether the length of a recording can be turned into milliseconds.
pub open spec fn measurable(samples: int) -> bool {
    samples * 1000 <= u64::MAX
}

/// How many samples of digital silence separate two segments.
pub open spec fn silence_samples(settings: Settings) -> int {
    let exact = (settings.silence_ms * settings.sample_rate) / 1000;
    if exact <= usize::MAX {
        exact
    } else {
        usize::MAX as int
    }
}

/// `count` samples of digital silence.
pub open spec fn silence(count: int) -> Seq<u32> {
    Seq::new(count as nat, |i: int| 0u32)
}

/// A count as a `u32`, as far as one reaches.
pub open spec fn as_count(n: nat) -> u32 {
    if n <= u32::MAX {
        n as u32
    } else {
        u32::MAX
    }
}

/// Whether a stop for this reason ends the session outright rather than opening a window:
/// continuing past a limit that was just hit would make the limit meaningless.
pub open spec fn ends_session(settings: Settings, segments: nat, reason: StopReason) -> bool {
    ||| reason == StopReason::TotalLimit
    ||| reason == StopReason::SegmentLimit
    ||| reason == StopReason::Shutdown
    ||| as_count(segments) >= settings.max_segments
    ||| settings.cooldown_ms == 0
}

/// What a recorder is at any moment.
pub struct RecorderView {
    pub settings: Settings,
    pub device: Seq<char>,
    pub phase: Phase,
    pub audio: Seq<u32>,
    /// Audio captured during the continuation window. Whether it belongs to the recording is
    /// not known until the window closes.
    pub gap_audio: Seq<u32>,
    pub segments: Seq<Segment>,
    pub open: Option<OpenSegment>,
    /// When the continuation window opened, in nanoseconds on the clock of [`Moment`].
    pub stopped: Option<int>,
    pub continuations: u32,
    pub totals: LevelTotals,
    pub started_at: Option<Timestamp>,
}

impl RecorderView {
    /// A segment is open exactly while recording, a window has a start, lengths can be
    /// measured, and the session began at an instant a timestamp can name.
    pub open spec fn wf(self) -> bool {
        &&& (self.phase == Phase::Recording) == (self.open is Some)
        &&& self.phase == Phase::Cooling ==> self.stopped is Some
        &&& measurable(self.audio.len() as int)
        &&& self.totals.wf()
        &&& self.started_at matches Some(at) ==> at.valid()
    }

    /// A recorder that has not recorded anything yet.
    pub open spec fn fresh(
        settings: Settings,
        device: Seq<char>,
        totals: LevelTotals,
    ) -> RecorderView {
        RecorderView {
            settings,
            device,
            phase: Phase::Idle,
            audio: Seq::empty(),
            gap_audio: Seq::empty(),
            segments: Seq::empty(),
            open: None,
            stopped: None,
            continuations: 0,
            totals,
            started_at: None,
        }
    }

    /// Audio captured so far, in milliseconds.
    pub open spec fn recorded_ms(self) -> int {
        crate::audio::level::millis_of(self.audio.len() as int, self.settings.sample_rate)
    }

    /// How long the current segment has been running, in milliseconds.
    pub open spec fn segment_elapsed_ms(self, now: Moment) -> int {
        match self.open {
            Some(segment) => now.millis_since_spec(segment.key_down),
            None => 0,
        }
    }

    /// How long ago the window opened, in nanoseconds.
    pub open spec fn since_stop(self, now: Moment) -> int {
        match self.stopped {
            Some(stopped) => if now.nanos > stopped {
                now.nanos - stopped
            } else {
                0
            },
            None => 0,
        }
    }

    /// Whether the continuation window is still open.
    pub open spec fn window_open(self, now: Moment) -> bool {
        self.stopped is Some && self.since_stop(now) < self.settings.cooldown_ms * 1_000_000
    }

    /// How much of the continuation window is left, in milliseconds.
    pub open spec fn cooldown_remaining_ms(self, now: Moment) -> int {
        let window = self.settings.cooldown_ms * 1_000_000;
        if self.stopped is None || self.since_stop(now) >= window {
            0
        } else {
            (window - self.since_stop(now)) / 1_000_000
        }
    }

    /// The audio once a continuation has decided what the pause becomes.
    pub open spec fn bridged(self) -> Seq<u32> {
        match self.settings.gap {
            GapMode::Keep => self.audio + self.gap_audio,
            GapMode::Drop => self.audio,
            GapMode::Silence => self.audio + silence(silence_samples(self.settings)),
        }
    }

    /// What a press does.
    pub open spec fn start(
        self,
        now: Moment,
        wall: Timestamp,
        pre_roll: Seq<u32>,
        pre_roll_speech_ms: u32,
    ) -> (RecorderView, Transition) {
        match self.phase {
            Phase::Recording => (self, Transition::Nothing),
            Phase::Cooling => if !self.window_open(now) {
                (RecorderView { phase: Phase::Idle, ..self }, Transition::Finalized)
            } else {
                self.resume(now, wall)
            },
            Phase::Idle => self.begin(now, wall, pre_roll, pre_roll_speech_ms),
        }
    }

    /// How much audio from before the keypress `pre_roll` holds.
    pub open spec fn lookback_ms(self, pre_roll: Seq<u32>) -> u32 {
        let ms = crate::audio::level::millis_of(pre_roll.len() as int, self.settings.sample_rate);
        if ms <= u32::MAX {
            ms as u32
        } else {
            self.settings.configured_pre_roll_ms
        }
    }

    /// The first press: the pre-roll comes first, and the session began with it.
    pub open spec fn begin(
        self,
        now: Moment,
        wall: Timestamp,
        pre_roll: Seq<u32>,
        pre_roll_speech_ms: u32,
    ) -> (RecorderView, Transition) {
        let pre_roll_ms = self.lookback_ms(pre_roll);
        let open = OpenSegment {
            index: 0,
            key_down_at: wall,
            key_down: now,
            pre_roll_ms,
            speech_in_pre_roll_ms: pre_roll_speech_ms,
            start_offset_ms: 0,
            resumed_after_ms: None,
        };
        (
            RecorderView {
                phase: Phase::Recording,
                audio: pre_roll,
                started_at: Some(wall.before_by(pre_roll_ms as int)),
                open: Some(open),
                ..self
            },
            Transition::Started { segment: 0, pre_roll_ms },
        )
    }

    /// A press inside the window.
    pub open spec fn resume(self, now: Moment, wall: Timestamp) -> (RecorderView, Transition) {
        let resumed_after_ms = (self.since_stop(now) / 1_000_000) as u64;
        let index = as_count(self.segments.len());
        let audio = self.bridged();
        let open = OpenSegment {
            index,
            key_down_at: wall,
            key_down: now,
            // Pre-roll belongs to the start of a session. Within one, the continuation mode
            // already decides what happens to the audio between segments.
            pre_roll_ms: 0,
            speech_in_pre_roll_ms: 0,
            start_offset_ms: crate::audio::level::millis_of(
                audio.len() as int,
                self.settings.sample_rate,
            ) as u64,
            resumed_after_ms: Some(resumed_after_ms),
        };
        (
            RecorderView {
                phase: Phase::Recording,
                audio,
                gap_audio: Seq::empty(),
                continuations: (self.continuations + 1) as u32,
                open: Some(open),
                stopped: None,
                ..self
            },
            Transition::Resumed { segment: index, resumed_after_ms },
        )
    }

    /// What captured audio does.
    pub open spec fn push(self, samples: Seq<u32>, snapshot: LevelSnapshot) -> RecorderView {
        match self.phase {
            Phase::Recording => RecorderView {
                audio: self.audio + samples,
                totals: self.totals.with(samples, snapshot),
                ..self
            },
            Phase::Cooling => if self.settings.gap == GapMode::Keep {
                RecorderView { gap_audio: self.gap_audio + samples, ..self }
            } else {
                self
            },
            Phase::Idle => self,
        }
    }

    /// The segment that ends when the open one is stopped.
    pub open spec fn closed_segment(self, wall: Timestamp, reason: StopReason) -> Segment {
        let open = self.open->0;
        let recorded = self.recorded_ms();
        Segment {
            index: open.index,
            key_down_at: open.key_down_at,
            key_up_at: Some(wall),
            pre_roll_ms: open.pre_roll_ms,
            speech_in_pre_roll_ms: open.speech_in_pre_roll_ms,
            start_offset_ms: open.start_offset_ms,
            duration_ms: if recorded > open.start_offset_ms {
                (recorded - open.start_offset_ms) as u64
            } else {
                0
            },
            resumed_after_ms: open.resumed_after_ms,
            stop_reason: reason,
        }
    }

    /// What a release, or a limit, does.
    pub open spec fn stop(self, now: Moment, wall: Timestamp, reason: StopReason) -> (
        RecorderView,
        Transition,
    ) {
        if self.phase != Phase::Recording {
            (self, Transition::Nothing)
        } else {
            let segment = self.closed_segment(wall, reason);
            let ends = ends_session(self.settings, self.segments.len() + 1, reason);
            (
                RecorderView {
                    phase: Phase::Cooling,
                    segments: self.segments.push(segment),
                    open: None,
                    gap_audio: Seq::empty(),
                    stopped: Some(
                        if ends {
                            now.nanos - self.settings.cooldown_ms * 1_000_000
                        } else {
                            now.nanos as int
                        },
                    ),
                    ..self
                },
                Transition::Stopped {
                    segment: segment.index,
                    duration_ms: segment.duration_ms,
                    reason,
                    cooldown_ms: if ends { 0 } else { self.settings.cooldown_ms },
                },
            )
        }
    }

    /// What the passing of time does.
    pub open spec fn tick(self, now: Moment, wall: Timestamp) -> (RecorderView, Transition) {
        match self.phase {
            Phase::Recording => if self.segment_elapsed_ms(now) >= self.settings.max_recording_secs
                * 1000 {
                self.stop(now, wall, StopReason::Watchdog)
            } else if self.recorded_ms() >= self.settings.max_total_secs * 1000 {
                self.stop(now, wall, StopReason::TotalLimit)
            } else {
                (self, Transition::Nothing)
            },
            Phase::Cooling => if !self.window_open(now) {
                (RecorderView { phase: Phase::Idle, ..self }, Transition::Finalized)
            } else {
                (self, Transition::Nothing)
            },
            Phase::Idle => (self, Transition::Nothing),
        }
    }

    /// What abandoning the session does.
    pub open spec fn cancel(self) -> (RecorderView, Transition) {
        if self.phase == Phase::Idle && self.segments.len() == 0 {
            (self, Transition::Nothing)
        } else {
            (
                RecorderView {
                    phase: Phase::Idle,
                    audio: Seq::empty(),
                    gap_audio: Seq::empty(),
                    segments: Seq::empty(),
                    open: None,
                    stopped: None,
                    ..self
                },
                Transition::Cancelled,
            )
        }
    }

    /// Whether a press can be recorded: the audio it leads to can be measured, and the
    /// session began at an instant that a timestamp can name.
    pub open spec fn can_start(self, wall: Timestamp, pre_roll: Seq<u32>) -> bool {
        match self.phase {
            Phase::Recording => true,
            Phase::Cooling => {
                &&& measurable(self.bridged().len() as int)
                &&& self.bridged().len() <= usize::MAX
                &&& self.continuations < u32::MAX
            },
            Phase::Idle => {
                &&& measurable(pre_roll.len() as int)
                &&& wall.valid()
                &&& wall.reaches_back(self.lookback_ms(pre_roll) as int)
            },
        }
    }

    /// Whether captured audio can be taken in: its total can be measured and counted.
    pub open spec fn can_push(self, samples: Seq<u32>, snapshot: LevelSnapshot) -> bool {
        self.phase == Phase::Recording ==> {
            &&& measurable((self.audio.len() + samples.len()) as int)
            &&& self.totals.has_room(samples.len() as int, snapshot)
        }
    }
}

/// Drives one recording from the first keypress to a finished buffer.
#[derive(Debug)]
pub struct Recorder {
    settings: Settings,
    device: String,
    phase: Phase,
    audio: Vec<u32>,
    gap_audio: Vec<u32>,
    segments: Vec<Segment>,
    open: Option<OpenSegment>,
    stopped: Option<i128>,
    continuations: u32,
    totals: LevelTotals,
    started_at: Option<Timestamp>,
}

impl View for Recorder {
    type V = RecorderView;

    closed spec fn view(&self) -> RecorderView {
        RecorderView {
            settings: self.settings,
            device: self.device@,
            phase: self.phase,
            audio: self.audio@,
            gap_audio: self.gap_audio@,
            segments: self.segments@,
            open: self.open,
            stopped: match self.stopped {
                Some(nanos) => Some(nanos as int),
                None => None,
            },
            continuations: self.continuations,
            totals: self.totals,
            started_at: self.started_at,
        }
    }
}

impl Recorder {
    /// Whether the recorder is one that its own operations lead to.
    pub closed spec fn wf(self) -> bool {
        &&& self@.wf()
        &&& self.stopped matches Some(stopped) ==> -u64::MAX <= stopped <= u64::MAX
    }

    pub fn new(profile: &Profile, levels: &LevelsConfig, sample_rate: u32, device: String) -> (result:
        Self)
        ensures
            result.wf(),
            result@ == RecorderView::fresh(
                settings_for(*profile, sample_rate),
                device@,
                LevelTotals::fresh(sample_rate, *levels),
            ),
    {
        let downgraded = profile.capture.mode == CaptureMode::OnDemand && profile.continuation.gap
            == GapMode::Keep;
        let settings = Settings {
            sample_rate,
            capture_mode: profile.capture.mode,
            configured_pre_roll_ms: profile.capture.pre_roll_ms,
            cooldown_ms: profile.session.cooldown_ms,
            max_recording_secs: profile.session.max_recording_secs,
            max_total_secs: profile.session.max_total_secs,
            gap: if downgraded {
                GapMode::Drop
            } else {
                profile.continuation.gap
            },
            gap_downgraded_to: if downgraded {
                Some(GapMode::Drop)
            } else {
                None
            },
            silence_ms: profile.continuation.silence_ms,
            max_segments: profile.continuation.max_segments,
        };
        Recorder {
            settings,
            device,
            phase: Phase::Idle,
            audio: Vec::new(),
            gap_audio: Vec::new(),
            segments: Vec::new(),
            open: None,
            stopped: None,
            continuations: 0,
            totals: LevelTotals::new(sample_rate, levels),
            started_at: None,
        }
    }

    pub fn phase(&self) -> (result: Phase)
        ensures
            result == self@.phase,
    {
        self.phase
    }

    /// The segment being recorded, or zero when none is.
    pub fn segment_index(&self) -> (result: u32)
        ensures
            result == (match self@.open {
                Some(segment) => segment.index,
                None => 0,
            }),
    {
        match self.open {
            Some(segment) => segment.index,
            None => 0,
        }
    }

    /// The running level totals.
    pub fn totals(&self) -> (result: LevelTotals)
        ensures
            result == self@.totals,
    {
        self.totals
    }

    /// Audio captured so far, in milliseconds.
    pub fn recorded_ms(&self) -> (result: u64)
        requires
            self.wf(),
        ensures
            result == self@.recorded_ms(),
    {
        samples_to_ms(self.audio.len() as u64, self.settings.sample_rate)
    }

    /// How long the current segment has been running.
    pub fn segment_elapsed_ms(&self, now: Moment) -> (result: u64)
        ensures
            result == self@.segment_elapsed_ms(now),
    {
        match self.open {
            Some(segment) => now.millis_since(segment.key_down),
            None => 0,
        }
    }

    /// How long ago the window opened, in nanoseconds.
    fn since_stop(&self, now: Moment) -> (result: i128)
        requires
            self.wf(),
        ensures
            result == self@.since_stop(now),
            0 <= result <= 2 * u64::MAX,
    {
        match self.stopped {
            Some(stopped) => {
                if now.nanos as i128 > stopped {
                    now.nanos as i128 - stopped
                } else {
                    0
                }
            },
            None => 0,
        }
    }

    /// Whether the continuation window is still open.
    pub fn window_open(&self, now: Moment) -> (result: bool)
        requires
            self.wf(),
        ensures
            result == self@.window_open(now),
    {
        self.stopped.is_some() && self.since_stop(now) < self.settings.cooldown_ms as i128
            * 1_000_000
    }

    /// How much of the continuation window is left.
    pub fn cooldown_remaining_ms(&self, now: Moment) -> (result: u32)
        requires
            self.wf(),
        ensures
            result == self@.cooldown_remaining_ms(now),
    {
        let window: i128 = self.settings.cooldown_ms as i128 * 1_000_000;
        let elapsed: i128 = self.since_stop(now);
        if self.stopped.is_none() || elapsed >= window {
            0
        } else {
            let left: u64 = (window - elapsed) as u64;
            (left / 1_000_000) as u32
        }
    }

    /// Whether a press can be recorded.
    pub fn accepts_press(&self, wall: Timestamp, pre_roll: &[u32]) -> (result: bool)
        requires
            self.wf(),
        ensures
            result == self@.can_start(wall, pre_roll@),
    {
        match self.phase {
            Phase::Recording => true,
            Phase::Cooling => {
                let bridged: u128 = self.audio.len() as u128 + match self.settings.gap {
                    GapMode::Keep => self.gap_audio.len() as u128,
                    GapMode::Drop => 0,
                    GapMode::Silence => self.silence_length() as u128,
                };
                bridged * 1000 <= u64::MAX as u128 && bridged <= usize::MAX as u128
                    && self.continuations < u32::MAX
            },
            Phase::Idle => {
                if pre_roll.len() as u128 * 1000 > u64::MAX as u128 || !wall.is_valid() {
                    return false;
                }
                let ms: u64 = samples_to_ms(pre_roll.len() as u64, self.settings.sample_rate);
                let pre_roll_ms: u32 = if ms <= u32::MAX as u64 {
                    ms as u32
                } else {
                    self.settings.configured_pre_roll_ms
                };
                wall.has_past(pre_roll_ms)
            },
        }
    }

    /// Whether captured audio can be taken in.
    pub fn accepts_audio(&self, samples: &[u32], snapshot: &LevelSnapshot) -> (result: bool)
        requires
            self.wf(),
        ensures
            result == self@.can_push(samples@, *snapshot),
    {
        self.phase != Phase::Recording || ((self.audio.len() as u128 + samples.len() as u128) * 1000
            <= u64::MAX as u128 && (self.totals.samples as u128 + samples.len() as u128) * 1000
            <= u64::MAX as u128 && self.totals.clipped_samples as u128
            + snapshot.clipped_samples as u128 <= u64::MAX as u128)
    }

    /// Begin recording, or resume the session in its continuation window.
    ///
    /// A press while recording is a key repeat, or a compositor delivering the same event
    /// twice, and does nothing. A press after the window has closed does not resume: the
    /// session is over, and [`Transition::Finalized`] says so.
    ///
    /// `pre_roll` is the audio captured before this moment, empty in modes that keep none.
    pub fn start(
        &mut self,
        now: Moment,
        wall: Timestamp,
        pre_roll: Vec<u32>,
        pre_roll_speech_ms: u32,
    ) -> (result: Transition)
        requires
            old(self).wf(),
            old(self)@.can_start(wall, pre_roll@),
        ensures
            final(self).wf(),
            (final(self)@, result) == old(self)@.start(now, wall, pre_roll@, pre_roll_speech_ms),
    {
        match self.phase {
            Phase::Recording => Transition::Nothing,
            Phase::Cooling => {
                if !self.window_open(now) {
                    self.phase = Phase::Idle;
                    Transition::Finalized
                } else {
                    self.resume(now, wall)
                }
            },
            Phase::Idle => {
                let ms: u64 = samples_to_ms(pre_roll.len() as u64, self.settings.sample_rate);
                let pre_roll_ms: u32 = if ms <= u32::MAX as u64 {
                    ms as u32
                } else {
                    self.settings.configured_pre_roll_ms
                };
                self.audio = pre_roll;
                self.started_at = Some(wall.minus_millis(pre_roll_ms));
                self.open = Some(
                    OpenSegment {
                        index: 0,
                        key_down_at: wall,
                        key_down: now,
                        pre_roll_ms,
                        speech_in_pre_roll_ms: pre_roll_speech_ms,
                        start_offset_ms: 0,
                        resumed_after_ms: None,
                    },
                );
                self.phase = Phase::Recording;
                Transition::Started { segment: 0, pre_roll_ms }
            },
        }
    }

    fn resume(&mut self, now: Moment, wall: Timestamp) -> (result: Transition)
        requires
            old(self).wf(),
            old(self)@.phase == Phase::Cooling,
            old(self)@.can_start(wall, Seq::empty()),
        ensures
            final(self).wf(),
            (final(self)@, result) == old(self)@.resume(now, wall),
    {
        let elapsed: u128 = self.since_stop(now) as u128;
        let resumed_after_ms: u64 = (elapsed / 1_000_000) as u64;
        let ghost before = self@;

        // Decide what the pause becomes.
        match self.settings.gap {
            GapMode::Keep => {
                self.audio.extend_from_slice(self.gap_audio.as_slice());
                assert(self.audio@ =~= before.bridged());
            },
            GapMode::Drop => {},
            GapMode::Silence => {
                let samples: usize = self.silence_length();
                let length: usize = self.audio.len() + samples;
                self.audio.resize(length, 0u32);
                proof {
                    assert forall|i: int| 0 <= i < length implies self.audio@[i]
                        == before.bridged()[i] by {
                        if i < before.audio.len() {
                            assert(self.audio@.subrange(0, before.audio.len() as int)[i]
                                == before.audio[i]);
                        }
                    }
                    assert(self.audio@ =~= before.bridged());
                }
            },
        }
        self.gap_audio.clear();

        let index: u32 = count_u32(self.segments.len());
        let start_offset_ms: u64 = samples_to_ms(
            self.audio.len() as u64,
            self.settings.sample_rate,
        );
        self.continuations = self.continuations + 1;
        self.open = Some(
            OpenSegment {
                index,
                key_down_at: wall,
                key_down: now,
                pre_roll_ms: 0,
                speech_in_pre_roll_ms: 0,
                start_offset_ms,
                resumed_after_ms: Some(resumed_after_ms),
            },
        );
        self.stopped = None;
        self.phase = Phase::Recording;

        Transition::Resumed { segment: index, resumed_after_ms }
    }

    fn silence_length(&self) -> (result: usize)
        ensures
            result == silence_samples(self@.settings),
    {
        proof {
            let ms = self.settings.silence_ms as int;
            let rate = self.settings.sample_rate as int;
            assert(0 <= ms * rate <= u64::MAX) by (nonlinear_arith)
                requires
                    0 <= ms <= u32::MAX,
                    0 <= rate <= u32::MAX,
            ;
        }
        let exact: u64 = self.settings.silence_ms as u64 * self.settings.sample_rate as u64 / 1000;
        if exact <= usize::MAX as u64 {
            exact as usize
        } else {
            usize::MAX
        }
    }

    /// Feed in captured audio. Where it lands depends on the phase: into the recording, held
    /// aside until the window closes decides whether it belongs, or nowhere.
    pub fn push(&mut self, samples: &[u32], snapshot: &LevelSnapshot)
        requires
            old(self).wf(),
            old(self)@.can_push(samples@, *snapshot),
        ensures
            final(self).wf(),
            final(self)@ == old(self)@.push(samples@, *snapshot),
    {
        let ghost before = self@;
        match self.phase {
            Phase::Recording => {
                self.audio.extend_from_slice(samples);
                self.totals.add(samples, snapshot);
                assert(self.audio@ =~= before.audio + samples@);
            },
            Phase::Cooling => {
                if self.settings.gap == GapMode::Keep {
                    self.gap_audio.extend_from_slice(samples);
                    assert(self.gap_audio@ =~= before.gap_audio + samples@);
                }
            },
            Phase::Idle => {},
        }
    }

    /// End the current segment and open the continuation window.
    ///
    /// Idempotent: a compositor can deliver a release without a matching press, and a
    /// keybind that errors when the user did nothing wrong is worse than one that does
    /// nothing.
    pub fn stop(&mut self, now: Moment, wall: Timestamp, reason: StopReason) -> (result: Transition)
        requires
            old(self).wf(),
        ensures
            final(self).wf(),
            (final(self)@, result) == old(self)@.stop(now, wall, reason),
    {
        if self.phase != Phase::Recording {
            return Transition::Nothing;
        }
        let open = match self.open {
            Some(open) => open,
            None => {
                return Transition::Nothing;
            },
        };
        let recorded: u64 = self.recorded_ms();
        let duration_ms: u64 = if recorded > open.start_offset_ms {
            recorded - open.start_offset_ms
        } else {
            0
        };
        self.open = None;
        self.segments.push(
            Segment {
                index: open.index,
                key_down_at: open.key_down_at,
                key_up_at: Some(wall),
                pre_roll_ms: open.pre_roll_ms,
                speech_in_pre_roll_ms: open.speech_in_pre_roll_ms,
                start_offset_ms: open.start_offset_ms,
                duration_ms,
                resumed_after_ms: open.resumed_after_ms,
                stop_reason: reason,
            },
        );
        self.phase = Phase::Cooling;
        self.gap_audio.clear();

        let limit = match reason {
            StopReason::TotalLimit | StopReason::SegmentLimit | StopReason::Shutdown => true,
            StopReason::Released | StopReason::Watchdog | StopReason::Cancelled => false,
        };
        let ends = limit || count_u32(self.segments.len()) >= self.settings.max_segments
            || self.settings.cooldown_ms == 0;
        if ends {
            self.stopped = Some(now.nanos as i128 - self.settings.cooldown_ms as i128 * 1_000_000);
        } else {
            self.stopped = Some(now.nanos as i128);
        }
        Transition::Stopped {
            segment: open.index,
            duration_ms,
            reason,
            cooldown_ms: if ends {
                0
            } else {
                self.settings.cooldown_ms
            },
        }
    }

    /// Advance time. Returns a transition when a deadline has been reached.
    ///
    /// The watchdog here is the reason a missed release keybind is survivable: releasing the
    /// modifier before the key means the compositor never fires the release, and without
    /// this the daemon would record until the disk filled.
    pub fn tick(&mut self, now: Moment, wall: Timestamp) -> (result: Transition)
        requires
            old(self).wf(),
        ensures
            final(self).wf(),
            (final(self)@, result) == old(self)@.tick(now, wall),
    {
        match self.phase {
            Phase::Recording => {
                if self.segment_elapsed_ms(now) >= self.settings.max_recording_secs as u64 * 1000 {
                    return self.stop(now, wall, StopReason::Watchdog);
                }
                if self.recorded_ms() >= self.settings.max_total_secs as u64 * 1000 {
                    return self.stop(now, wall, StopReason::TotalLimit);
                }
                Transition::Nothing
            },
            Phase::Cooling => {
                if !self.window_open(now) {
                    self.phase = Phase::Idle;
                    Transition::Finalized
                } else {
                    Transition::Nothing
                }
            },
            Phase::Idle => Transition::Nothing,
        }
    }

    /// Abandon the session. Nothing downstream runs.
    pub fn cancel(&mut self) -> (result: Transition)
        requires
            old(self).wf(),
        ensures
            final(self).wf(),
            (final(self)@, result) == old(self)@.cancel(),
    {
        if self.phase == Phase::Idle && self.segments.len() == 0 {
            return Transition::Nothing;
        }
        self.phase = Phase::Idle;
        self.audio.clear();
        self.gap_audio.clear();
        self.segments.clear();
        self.open = None;
        self.stopped = None;
        Transition::Cancelled
    }

    /// Consume the recorder and hand back what it captured.
    ///
    /// `peak_dbfs` and `mean_rms_dbfs` are the levels of the captured audio; `now` stands in
    /// for the start of a session that never started.
    pub fn finish(self, peak_dbfs: Single, mean_rms_dbfs: Single, now: Timestamp) -> (result:
        Finished)
        requires
            self.wf(),
        ensures
            result.holds(self@, peak_dbfs, mean_rms_dbfs, now),
            measurable(result.audio@.len() as int),
            now.valid() ==> result.started_at.valid(),
    {
        Finished {
            levels: self.totals.summarize(peak_dbfs, mean_rms_dbfs),
            capture: CaptureSummary {
                mode: self.settings.capture_mode,
                device: self.device,
                configured_pre_roll_ms: self.settings.configured_pre_roll_ms,
                gap: self.settings.gap,
                gap_downgraded_to: self.settings.gap_downgraded_to,
            },
            started_at: match self.started_at {
                Some(started_at) => started_at,
                None => now,
            },
            audio: self.audio,
            segments: self.segments,
            continuations: self.continuations,
        }
    }
}

/// The level summary that totals amount to.
pub open spec fn summary_of(
    totals: LevelTotals,
    peak_dbfs: Single,
    mean_rms_dbfs: Single,
) -> LevelSummary {
    LevelSummary {
        peak_dbfs,
        mean_rms_dbfs,
        speech_ms: crate::audio::level::millis_of(
            totals.speech_samples as int,
            totals.sample_rate,
        ) as u64,
        silence_ms: crate::audio::level::millis_of(
            totals.silence_samples as int,
            totals.sample_rate,
        ) as u64,
        clipped_samples: totals.clipped_samples,
    }
}

/// A length as a `u32`, as far as one reaches.
pub(crate) fn count_u32(n: usize) -> (result: u32)
    ensures
        result == as_count(n as nat),
{
    if n as u64 <= u32::MAX as u64 {
        n as u32
    } else {
        u32::MAX
    }
}

// ── what the machine promises ───────────────────────────────────────────────

/// Releasing the key does not finalize the session: it closes the segment, keeps the audio,
/// and leaves the window to decide.
pub proof fn law_releasing_does_not_finalize(r: RecorderView, now: Moment, wall: Timestamp)
    requires
        r.wf(),
        r.phase == Phase::Recording,
    ensures
        r.stop(now, wall, StopReason::Released).0.phase == Phase::Cooling,
        r.stop(now, wall, StopReason::Released).1 is Stopped,
        r.stop(now, wall, StopReason::Released).0.audio == r.audio,
        r.stop(now, wall, StopReason::Released).0.segments.len() == r.segments.len() + 1,
{
}

/// Pressing again inside the window continues the same session: what was recorded stays in
/// front, and the segments so far stay as they were.
pub proof fn law_pressing_inside_the_window_continues(
    r: RecorderView,
    now: Moment,
    wall: Timestamp,
    pre_roll: Seq<u32>,
    speech: u32,
)
    requires
        r.wf(),
        r.phase == Phase::Cooling,
        r.window_open(now),
        r.can_start(wall, pre_roll),
    ensures
        r.start(now, wall, pre_roll, speech).1 is Resumed,
        r.start(now, wall, pre_roll, speech).0.phase == Phase::Recording,
        r.audio.is_prefix_of(r.start(now, wall, pre_roll, speech).0.audio),
        r.start(now, wall, pre_roll, speech).0.segments == r.segments,
        r.start(now, wall, pre_roll, speech).0.started_at == r.started_at,
        r.start(now, wall, pre_roll, speech).0.continuations == r.continuations + 1,
{
    assert(r.audio.is_prefix_of(r.bridged()));
}

/// The window boundary is exact: `nanos` nanoseconds after a release that opened a window, a
/// press continues the session if and only if that is below the cooldown, and from then on
/// the session is over whoever asks first, the press or the clock.
pub proof fn law_window_boundary_is_exact(
    r: RecorderView,
    released: Moment,
    wall: Timestamp,
    reason: StopReason,
    nanos: nat,
    now: Moment,
    pre_roll: Seq<u32>,
    speech: u32,
)
    requires
        r.wf(),
        r.phase == Phase::Recording,
        !ends_session(r.settings, r.segments.len() + 1, reason),
        now.nanos == released.nanos + nanos,
    ensures
        ({
            let cooling = r.stop(released, wall, reason).0;
            &&& nanos < r.settings.cooldown_ms * 1_000_000 ==> cooling.start(now, wall, pre_roll, speech).1 is Resumed
                && cooling.tick(now, wall).1 == Transition::Nothing
            &&& nanos >= r.settings.cooldown_ms * 1_000_000 ==> cooling.start(now, wall, pre_roll, speech).1
                == Transition::Finalized && cooling.tick(now, wall).1 == Transition::Finalized
        }),
{
    let cooling = r.stop(released, wall, reason).0;
    assert(cooling.since_stop(now) == nanos);
}

/// A stop that ends the session opens no window: from then on neither a press nor the clock
/// finds one, so no limit can be continued past.
pub proof fn law_limits_cannot_be_continued_past(
    r: RecorderView,
    stopped: Moment,
    wall: Timestamp,
    reason: StopReason,
    now: Moment,
    pre_roll: Seq<u32>,
    speech: u32,
)
    requires
        r.wf(),
        r.phase == Phase::Recording,
        ends_session(r.settings, r.segments.len() + 1, reason),
        now.nanos >= stopped.nanos,
    ensures
        ({
            let cooling = r.stop(stopped, wall, reason).0;
            &&& r.stop(stopped, wall, reason).1->cooldown_ms == 0
            &&& cooling.start(now, wall, pre_roll, speech).1 == Transition::Finalized
            &&& cooling.tick(now, wall).1 == Transition::Finalized
        }),
{
}

/// Repeating what has already been done does nothing: a press while recording, a release
/// while not, a cancel with nothing in flight, and audio that arrives while idle.
pub proof fn law_repeats_do_nothing(
    r: RecorderView,
    now: Moment,
    wall: Timestamp,
    pre_roll: Seq<u32>,
    speech: u32,
    reason: StopReason,
    samples: Seq<u32>,
    snapshot: LevelSnapshot,
)
    requires
        r.wf(),
    ensures
        r.phase == Phase::Recording ==> r.start(now, wall, pre_roll, speech) == (
            r,
            Transition::Nothing,
        ),
        r.phase != Phase::Recording ==> r.stop(now, wall, reason) == (r, Transition::Nothing),
        r.phase == Phase::Idle ==> r.push(samples, snapshot) == r && r.tick(now, wall) == (
            r,
            Transition::Nothing,
        ),
        r.cancel().0.cancel() == (r.cancel().0, Transition::Nothing),
{
}

/// Audio captured in the window is discarded when the session simply ends: whatever arrives
/// after the release, the recording that is finalized is the one that was released.
pub proof fn law_gap_audio_is_discarded_unless_continued(
    r: RecorderView,
    samples: Seq<u32>,
    snapshot: LevelSnapshot,
    now: Moment,
    wall: Timestamp,
)
    requires
        r.wf(),
        r.phase == Phase::Cooling,
        !r.window_open(now),
    ensures
        r.push(samples, snapshot).tick(now, wall).1 == Transition::Finalized,
        r.push(samples, snapshot).tick(now, wall).0.audio == r.audio,
        r.push(samples, snapshot).tick(now, wall).0.segments == r.segments,
{
}

/// Kept gap audio belongs to the file but to no segment: the continuation starts after it,
/// and the segments already closed do not grow.
pub proof fn law_kept_gap_belongs_to_no_segment(r: RecorderView, now: Moment, wall: Timestamp)
    requires
        r.wf(),
        r.phase == Phase::Cooling,
        r.settings.gap == GapMode::Keep,
        measurable((r.audio + r.gap_audio).len() as int),
    ensures
        r.resume(now, wall).0.audio == r.audio + r.gap_audio,
        r.resume(now, wall).0.segments == r.segments,
        (r.resume(now, wall).0.open->0).start_offset_ms == crate::audio::level::millis_of(
            (r.audio + r.gap_audio).len() as int,
            r.settings.sample_rate,
        ),
{
    lemma_millis_fit((r.audio + r.gap_audio).len() as int, r.settings.sample_rate);
}

/// Where a segment ends in the recording, in milliseconds.
pub open spec fn end_of(segment: Segment) -> int {
    segment.start_offset_ms + segment.duration_ms
}

impl RecorderView {
    /// How far the closed segments may reach: up to the open one, or to the end.
    pub open spec fn reached(self) -> int {
        match self.open {
            Some(open) => open.start_offset_ms as int,
            None => self.recorded_ms(),
        }
    }

    /// Whether the segments lie where their offsets say: one after the other, within the
    /// recording, and the last one up to its end unless another is open.
    pub open spec fn located(self) -> bool {
        &&& self.reached() <= self.recorded_ms()
        &&& forall|i: int, j: int|
            #![trigger self.segments[i], self.segments[j]]
            0 <= i < j < self.segments.len() ==> end_of(self.segments[i])
                <= self.segments[j].start_offset_ms
        &&& forall|i: int|
            #![trigger self.segments[i]]
            0 <= i < self.segments.len() ==> end_of(self.segments[i]) <= self.reached()
        &&& self.open is None && self.segments.len() > 0 ==> end_of(self.segments.last())
            == self.reached()
    }

    /// Whether the segments follow each other without a hole: each starts where the ones
    /// before it add up to.
    pub open spec fn spliced(self) -> bool {
        &&& self.reached() == crate::session::record::total_of(self.segments)
        &&& forall|i: int|
            #![trigger self.segments[i]]
            0 <= i < self.segments.len() ==> self.segments[i].start_offset_ms
                == crate::session::record::total_of(self.segments.take(i))
    }
}

/// The segments of a session lie where their offsets say, whatever happens: a new recorder
/// has none, and every step keeps them in their places. A press counts as a step as long as
/// the recorder is not used for a second session.
pub proof fn law_every_step_keeps_segments_located(
    r: RecorderView,
    now: Moment,
    wall: Timestamp,
    pre_roll: Seq<u32>,
    speech: u32,
    samples: Seq<u32>,
    snapshot: LevelSnapshot,
    reason: StopReason,
)
    requires
        r.wf(),
        r.located(),
    ensures
        RecorderView::fresh(r.settings, r.device, r.totals).located(),
        r.can_start(wall, pre_roll) && (r.phase != Phase::Idle || r.segments.len() == 0)
            ==> r.start(now, wall, pre_roll, speech).0.located(),
        r.can_push(samples, snapshot) ==> r.push(samples, snapshot).located(),
        r.stop(now, wall, reason).0.located(),
        r.tick(now, wall).0.located(),
        r.cancel().0.located(),
{
    let rate = r.settings.sample_rate;
    lemma_millis_ascend(0, 0, rate);
    lemma_millis_ascend(0, pre_roll.len() as int, rate);
    lemma_millis_ascend(r.audio.len() as int, (r.audio + samples).len() as int, rate);
    lemma_millis_ascend(r.audio.len() as int, r.bridged().len() as int, rate);
    lemma_millis_fit(r.audio.len() as int, rate);
    if r.phase == Phase::Cooling && r.can_start(wall, pre_roll) {
        lemma_millis_fit(r.bridged().len() as int, rate);
    }
    lemma_stopping_keeps_segments_located(r, now, wall, reason);
    lemma_stopping_keeps_segments_located(r, now, wall, StopReason::Watchdog);
    lemma_stopping_keeps_segments_located(r, now, wall, StopReason::TotalLimit);
}

proof fn lemma_stopping_keeps_segments_located(
    r: RecorderView,
    now: Moment,
    wall: Timestamp,
    reason: StopReason,
)
    requires
        r.wf(),
        r.located(),
    ensures
        r.stop(now, wall, reason).0.located(),
{
    lemma_millis_fit(r.audio.len() as int, r.settings.sample_rate);
    if r.phase == Phase::Recording {
        let after = r.stop(now, wall, reason).0;
        assert(after.segments.last() == r.closed_segment(wall, reason));
        assert(forall|i: int| 0 <= i < r.segments.len() ==> after.segments[i] == r.segments[i]);
    }
}

/// Dropping the gap splices the segments together: they follow each other without a hole, so
/// that their durations add up to the length of the recording.
pub proof fn law_dropping_the_gap_splices_the_segments(
    r: RecorderView,
    now: Moment,
    wall: Timestamp,
    pre_roll: Seq<u32>,
    speech: u32,
    samples: Seq<u32>,
    snapshot: LevelSnapshot,
    reason: StopReason,
)
    requires
        r.wf(),
        r.located(),
        r.spliced(),
        r.settings.gap == GapMode::Drop,
    ensures
        r.open is None ==> crate::session::record::total_of(r.segments) == r.recorded_ms(),
        RecorderView::fresh(r.settings, r.device, r.totals).spliced(),
        r.phase != Phase::Idle || r.segments.len() == 0 ==> r.start(
            now,
            wall,
            pre_roll,
            speech,
        ).0.spliced(),
        r.push(samples, snapshot).spliced(),
        r.stop(now, wall, reason).0.spliced(),
        r.tick(now, wall).0.spliced(),
        r.cancel().0.spliced(),
{
    lemma_millis_ascend(0, 0, r.settings.sample_rate);
    lemma_millis_fit(r.audio.len() as int, r.settings.sample_rate);
    lemma_stopping_keeps_segments_spliced(r, now, wall, reason);
    lemma_stopping_keeps_segments_spliced(r, now, wall, StopReason::Watchdog);
    lemma_stopping_keeps_segments_spliced(r, now, wall, StopReason::TotalLimit);
}

proof fn lemma_stopping_keeps_segments_spliced(
    r: RecorderView,
    now: Moment,
    wall: Timestamp,
    reason: StopReason,
)
    requires
        r.wf(),
        r.located(),
        r.spliced(),
    ensures
        r.stop(now, wall, reason).0.spliced(),
{
    lemma_millis_fit(r.audio.len() as int, r.settings.sample_rate);
    if r.phase == Phase::Recording {
        let after = r.stop(now, wall, reason).0;
        assert(after.segments.drop_last() =~= r.segments);
        assert(after.segments.last() == r.closed_segment(wall, reason));
        assert forall|i: int|
            #![trigger after.segments[i]]
            0 <= i < after.segments.len() implies after.segments[i].start_offset_ms
            == crate::session::record::total_of(after.segments.take(i)) by {
            if i < r.segments.len() {
                assert(after.segments.take(i) =~= r.segments.take(i));
                assert(after.segments[i] == r.segments[i]);
            } else {
                assert(after.segments.take(i) =~= r.segments);
            }
        }
    }
}

impl RecorderView {
    /// Whether the segments are numbered in order, from nought, and every one but the first
    /// counts as a continuation.
    pub open spec fn numbered(self) -> bool {
        let begun = self.segments.len() + (if self.open is Some { 1int } else { 0int });
        &&& forall|i: int|
            #![trigger self.segments[i]]
            0 <= i < self.segments.len() ==> self.segments[i].index == as_count(i as nat)
        &&& self.open matches Some(open) ==> open.index == as_count(self.segments.len())
        &&& self.continuations == (if begun == 0 {
            0
        } else {
            begun - 1
        })
        &&& self.phase == Phase::Cooling ==> self.segments.len() > 0
    }
}

/// The segments of a session are numbered in order, and its continuations are one fewer: a
/// new recorder has neither, and every step keeps them in step. A press counts as a step as
/// long as the recorder is not used for a second session.
pub proof fn law_every_step_keeps_segments_numbered(
    r: RecorderView,
    now: Moment,
    wall: Timestamp,
    pre_roll: Seq<u32>,
    speech: u32,
    samples: Seq<u32>,
    snapshot: LevelSnapshot,
    reason: StopReason,
)
    requires
        r.wf(),
        r.numbered(),
    ensures
        RecorderView::fresh(r.settings, r.device, r.totals).numbered(),
        r.can_start(wall, pre_roll) && (r.phase != Phase::Idle || r.segments.len() == 0)
            ==> r.start(now, wall, pre_roll, speech).0.numbered(),
        r.push(samples, snapshot).numbered(),
        r.stop(now, wall, reason).0.numbered(),
        r.tick(now, wall).0.numbered(),
{
    lemma_stopping_keeps_segments_numbered(r, now, wall, reason);
    lemma_stopping_keeps_segments_numbered(r, now, wall, StopReason::Watchdog);
    lemma_stopping_keeps_segments_numbered(r, now, wall, StopReason::TotalLimit);
}

proof fn lemma_stopping_keeps_segments_numbered(
    r: RecorderView,
    now: Moment,
    wall: Timestamp,
    reason: StopReason,
)
    requires
        r.wf(),
        r.numbered(),
    ensures
        r.stop(now, wall, reason).0.numbered(),
{
    if r.phase == Phase::Recording {
        let after = r.stop(now, wall, reason).0;
        assert(after.segments.last() == r.closed_segment(wall, reason));
        assert(forall|i: int| 0 <= i < r.segments.len() ==> after.segments[i] == r.segments[i]);
    }
}

/// A session whose gaps were dropped adds up: its segments are numbered from nought, the first
/// starts with the recording, each starts where the one before it ends, together they last as
/// long as the recording, and there is one continuation fewer than there are segments.
pub proof fn law_a_finished_session_adds_up(r: RecorderView)
    requires
        r.wf(),
        r.spliced(),
        r.numbered(),
        r.open is None,
        0 < r.segments.len() <= u32::MAX,
    ensures
        forall|i: int|
            #![trigger r.segments[i]]
            0 <= i < r.segments.len() ==> r.segments[i].index == i,
        r.segments[0].start_offset_ms == 0,
        forall|i: int|
            #![trigger r.segments[i]]
            0 < i < r.segments.len() ==> r.segments[i].start_offset_ms == end_of(
                r.segments[i - 1],
            ),
        crate::session::record::total_of(r.segments) == r.recorded_ms(),
        r.continuations == r.segments.len() - 1,
{
    assert(r.segments.take(0) =~= Seq::<Segment>::empty());
    assert forall|i: int|
        #![trigger r.segments[i]]
        0 < i < r.segments.len() implies r.segments[i].start_offset_ms == end_of(
        r.segments[i - 1],
    ) by {
        assert(r.segments.take(i).drop_last() =~= r.segments.take(i - 1));
        assert(r.segments.take(i).last() == r.segments[i - 1]);
    }
}

/// Something that happens to a recorder in the course of one session that is not cancelled.
pub enum Happening {
    Press { now: Moment, wall: Timestamp, pre_roll: Seq<u32>, speech: u32 },
    Audio { samples: Seq<u32>, snapshot: LevelSnapshot },
    Stop { now: Moment, wall: Timestamp, reason: StopReason },
    Tick { now: Moment, wall: Timestamp },
}

impl RecorderView {
    /// Whether this can happen now: a press or audio that can be recorded, and no press that
    /// would begin a second session.
    pub open spec fn allows(self, happening: Happening) -> bool {
        match happening {
            Happening::Press { wall, pre_roll, .. } => self.can_start(wall, pre_roll) && (self.phase
                != Phase::Idle || self.segments.len() == 0),
            Happening::Audio { samples, snapshot } => self.can_push(samples, snapshot),
            _ => true,
        }
    }

    /// What something that happens leads to.
    pub open spec fn after(self, happening: Happening) -> RecorderView {
        match happening {
            Happening::Press { now, wall, pre_roll, speech } => self.start(
                now,
                wall,
                pre_roll,
                speech,
            ).0,
            Happening::Audio { samples, snapshot } => self.push(samples, snapshot),
            Happening::Stop { now, wall, reason } => self.stop(now, wall, reason).0,
            Happening::Tick { now, wall } => self.tick(now, wall).0,
        }
    }

    /// What everything that happens leads to.
    pub open spec fn after_all(self, happenings: Seq<Happening>) -> RecorderView
        decreases happenings.len(),
    {
        if happenings.len() == 0 {
            self
        } else {
            self.after_all(happenings.drop_last()).after(happenings.last())
        }
    }

    /// Whether all of this can happen, one after the other.
    pub open spec fn allows_all(self, happenings: Seq<Happening>) -> bool
        decreases happenings.len(),
    {
        happenings.len() > 0 ==> {
            let earlier = happenings.drop_last();
            self.allows_all(earlier) && self.after_all(earlier).allows(happenings.last())
        }
    }
}

proof fn lemma_happening_keeps_order(r: RecorderView, happening: Happening)
    requires
        r.wf(),
        r.located(),
        r.numbered(),
        r.settings.gap == GapMode::Drop ==> r.spliced(),
        r.allows(happening),
    ensures
        r.after(happening).wf(),
        r.after(happening).located(),
        r.after(happening).numbered(),
        r.after(happening).settings == r.settings,
        r.settings.gap == GapMode::Drop ==> r.after(happening).spliced(),
{
    match happening {
        Happening::Press { now, wall, pre_roll, speech } => {
            let samples = Seq::<u32>::empty();
            let snapshot = arbitrary();
            law_every_step_keeps_segments_located(
                r,
                now,
                wall,
                pre_roll,
                speech,
                samples,
                snapshot,
                StopReason::Released,
            );
            law_every_step_keeps_segments_numbered(
                r,
                now,
                wall,
                pre_roll,
                speech,
                samples,
                snapshot,
                StopReason::Released,
            );
            if r.settings.gap == GapMode::Drop {
                law_dropping_the_gap_splices_the_segments(
                    r,
                    now,
                    wall,
                    pre_roll,
                    speech,
                    samples,
                    snapshot,
                    StopReason::Released,
                );
            }
        },
        Happening::Audio { samples, snapshot } => {
            let (now, wall) = (arbitrary(), arbitrary());
            let pre_roll = Seq::<u32>::empty();
            law_every_step_keeps_segments_located(
                r,
                now,
                wall,
                pre_roll,
                0,
                samples,
                snapshot,
                StopReason::Released,
            );
            law_every_step_keeps_segments_numbered(
                r,
                now,
                wall,
                pre_roll,
                0,
                samples,
                snapshot,
                StopReason::Released,
            );
            if r.settings.gap == GapMode::Drop {
                law_dropping_the_gap_splices_the_segments(
                    r,
                    now,
                    wall,
                    pre_roll,
                    0,
                    samples,
                    snapshot,
                    StopReason::Released,
                );
            }
        },
        Happening::Stop { now, wall, reason } => {
            lemma_stopping_keeps_segments_located(r, now, wall, reason);
            lemma_stopping_keeps_segments_numbered(r, now, wall, reason);
            if r.settings.gap == GapMode::Drop {
                lemma_stopping_keeps_segments_spliced(r, now, wall, reason);
            }
        },
        Happening::Tick { now, wall } => {
            lemma_stopping_keeps_segments_located(r, now, wall, StopReason::Watchdog);
            lemma_stopping_keeps_segments_located(r, now, wall, StopReason::TotalLimit);
            lemma_stopping_keeps_segments_numbered(r, now, wall, StopReason::Watchdog);
            lemma_stopping_keeps_segments_numbered(r, now, wall, StopReason::TotalLimit);
            if r.settings.gap == GapMode::Drop {
                lemma_stopping_keeps_segments_spliced(r, now, wall, StopReason::Watchdog);
                lemma_stopping_keeps_segments_spliced(r, now, wall, StopReason::TotalLimit);
            }
        },
    }
}

proof fn lemma_session_keeps_order(fresh: RecorderView, happenings: Seq<Happening>)
    requires
        fresh.totals.wf(),
        fresh == RecorderView::fresh(fresh.settings, fresh.device, fresh.totals),
        fresh.allows_all(happenings),
    ensures
        fresh.after_all(happenings).wf(),
        fresh.after_all(happenings).located(),
        fresh.after_all(happenings).numbered(),
        fresh.after_all(happenings).settings == fresh.settings,
        fresh.settings.gap == GapMode::Drop ==> fresh.after_all(happenings).spliced(),
    decreases happenings.len(),
{
    if happenings.len() == 0 {
        lemma_millis_ascend(0, 0, fresh.settings.sample_rate);
    } else {
        let earlier = happenings.drop_last();
        lemma_session_keeps_order(fresh, earlier);
        lemma_happening_keeps_order(fresh.after_all(earlier), happenings.last());
    }
}

/// Over a whole session, whatever happens in it, the segments lie where their offsets say and
/// are numbered in order. Where gaps are dropped, and no segment is open, they add up: the
/// first starts with the recording, each starts where the one before it ends, together they
/// last as long as the recording, and there is one continuation fewer than there are segments.
pub proof fn law_a_whole_session_adds_up(
    settings: Settings,
    device: Seq<char>,
    totals: LevelTotals,
    happenings: Seq<Happening>,
)
    requires
        totals.wf(),
        RecorderView::fresh(settings, device, totals).allows_all(happenings),
    ensures
        ({
            let end = RecorderView::fresh(settings, device, totals).after_all(happenings);
            &&& end.located()
            &&& end.numbered()
            &&& settings.gap == GapMode::Drop && end.open is None && 0 < end.segments.len()
                <= u32::MAX ==> {
                &&& forall|i: int|
                    #![trigger end.segments[i]]
                    0 <= i < end.segments.len() ==> end.segments[i].index == i
                &&& end.segments[0].start_offset_ms == 0
                &&& forall|i: int|
                    #![trigger end.segments[i]]
                    0 < i < end.segments.len() ==> end.segments[i].start_offset_ms == end_of(
                        end.segments[i - 1],
                    )
                &&& crate::session::record::total_of(end.segments) == end.recorded_ms()
                &&& end.continuations == end.segments.len() - 1
            }
        }),
{
    let fresh = RecorderView::fresh(settings, device, totals);
    let end = fresh.after_all(happenings);
    lemma_session_keeps_order(fresh, happenings);
    if settings.gap == GapMode::Drop && end.open is None && 0 < end.segments.len() <= u32::MAX {
        law_a_finished_session_adds_up(end);
    }
}

/// Cancelling discards everything, in whatever phase.
pub proof fn law_cancelling_discards_everything(r: RecorderView)
    requires
        r.wf(),
        r.phase != Phase::Idle,
    ensures
        r.cancel().1 == Transition::Cancelled,
        r.cancel().0.phase == Phase::Idle,
        r.cancel().0.audio.len() == 0,
        r.cancel().0.segments.len() == 0,
{
}

/// The pre-roll is at the front of the recording, and the session began with it.
pub proof fn law_pre_roll_comes_first(
    r: RecorderView,
    now: Moment,
    wall: Timestamp,
    pre_roll: Seq<u32>,
    speech: u32,
    samples: Seq<u32>,
    snapshot: LevelSnapshot,
)
    requires
        r.wf(),
        r.phase == Phase::Idle,
    ensures
        ({
            let (started, transition) = r.start(now, wall, pre_roll, speech);
            &&& transition == Transition::Started { segment: 0, pre_roll_ms: r.lookback_ms(pre_roll) }
            &&& pre_roll.is_prefix_of(started.push(samples, snapshot).audio)
            &&& started.started_at == Some(wall.before_by(r.lookback_ms(pre_roll) as int))
            &&& (started.open->0).key_down_at == wall
        }),
{
    assert(pre_roll.is_prefix_of(pre_roll + samples));
}

/// The watchdog stops a segment once it has run for its limit, and not before.
pub proof fn law_watchdog_fires_at_its_limit(r: RecorderView, now: Moment, wall: Timestamp)
    requires
        r.wf(),
        r.phase == Phase::Recording,
    ensures
        (r.tick(now, wall).1 matches Transition::Stopped { reason, .. } && reason
            == StopReason::Watchdog) == (r.segment_elapsed_ms(now)
            >= r.settings.max_recording_secs * 1000),
{
}

/// On-demand capture never keeps the gap, and says that it does not.
pub proof fn law_on_demand_cannot_keep_the_gap(profile: Profile, sample_rate: u32)
    requires
        profile.capture.mode == CaptureMode::OnDemand,
    ensures
        settings_for(profile, sample_rate).gap != GapMode::Keep,
        profile.continuation.gap == GapMode::Keep ==> settings_for(
            profile,
            sample_rate,
        ).gap_downgraded_to == Some(GapMode::Drop),
{
}

// ── what a recording holds ──────────────────────────────────────────────────

/// Blocks of audio, one after another.
pub open spec fn joined(blocks: Seq<(Seq<u32>, LevelSnapshot)>) -> Seq<u32>
    decreases blocks.len(),
{
    if blocks.len() == 0 {
        Seq::empty()
    } else {
        joined(blocks.drop_last()) + blocks.last().0
    }
}

impl RecorderView {
    /// The recorder after a run of captured blocks.
    pub open spec fn hearing(self, blocks: Seq<(Seq<u32>, LevelSnapshot)>) -> RecorderView
        decreases blocks.len(),
    {
        if blocks.len() == 0 {
            self
        } else {
            self.hearing(blocks.drop_last()).push(blocks.last().0, blocks.last().1)
        }
    }
}

/// How audio is cut into blocks does not matter: two blocks in a row leave the same audio as
/// one block of both, while recording and in the continuation window alike, and capturing
/// audio changes nothing else but the levels.
pub proof fn law_block_boundaries_do_not_matter(
    r: RecorderView,
    first: Seq<u32>,
    second: Seq<u32>,
    at_first: LevelSnapshot,
    at_second: LevelSnapshot,
    at_both: LevelSnapshot,
)
    ensures
        ({
            let apart = r.push(first, at_first).push(second, at_second);
            let together = r.push(first + second, at_both);
            &&& apart.audio == together.audio
            &&& apart.gap_audio == together.gap_audio
            &&& r.phase == Phase::Recording ==> apart.audio == r.audio + first + second
            &&& r.phase == Phase::Cooling && r.settings.gap == GapMode::Keep ==> apart.gap_audio
                == r.gap_audio + first + second
            &&& r.phase == Phase::Cooling && r.settings.gap != GapMode::Keep ==> apart.gap_audio
                == r.gap_audio
            &&& r.phase != Phase::Recording ==> apart.audio == r.audio && apart == together
                && apart.totals == r.totals
            &&& apart.phase == r.phase
            &&& apart.segments == r.segments
            &&& apart.open == r.open
            &&& apart.stopped == r.stopped
            &&& apart.continuations == r.continuations
            &&& apart.started_at == r.started_at
            &&& apart.settings == r.settings
        }),
{
    assert(r.audio + (first + second) =~= r.audio + first + second);
    assert(r.gap_audio + (first + second) =~= r.gap_audio + first + second);
}

/// Audio is measured exactly while it is recorded: the levels fold in each recorded block with
/// its own measurement, and none that came in a pause.
pub proof fn law_only_recorded_audio_is_measured(
    r: RecorderView,
    samples: Seq<u32>,
    snapshot: LevelSnapshot,
)
    ensures
        r.phase == Phase::Recording ==> r.push(samples, snapshot).totals == r.totals.with(
            samples,
            snapshot,
        ),
        r.phase != Phase::Recording ==> r.push(samples, snapshot).totals == r.totals,
        r.phase == Phase::Idle ==> r.push(samples, snapshot) == r,
{
}

/// A segment ends as it was opened and when it is stopped: it keeps its number, when its key
/// went down, its look-back, its start and how late it came, and lasts from its start to the
/// end of what was recorded.
pub proof fn law_a_segment_lasts_until_it_is_stopped(
    r: RecorderView,
    now: Moment,
    wall: Timestamp,
    reason: StopReason,
)
    requires
        r.wf(),
        r.phase == Phase::Recording,
        r.settings.sample_rate > 0,
        (r.open->0).start_offset_ms <= r.audio.len() * 1000 / r.settings.sample_rate as nat,
    ensures
        ({
            let open = r.open->0;
            let (stopped, transition) = r.stop(now, wall, reason);
            let segment = stopped.segments.last();
            let length = r.audio.len() * 1000 / r.settings.sample_rate as nat
                - open.start_offset_ms;
            &&& stopped.segments.drop_last() == r.segments
            &&& stopped.segments.len() == r.segments.len() + 1
            &&& segment.index == open.index
            &&& segment.key_down_at == open.key_down_at
            &&& segment.key_up_at == Some(wall)
            &&& segment.pre_roll_ms == open.pre_roll_ms
            &&& segment.speech_in_pre_roll_ms == open.speech_in_pre_roll_ms
            &&& segment.start_offset_ms == open.start_offset_ms
            &&& segment.resumed_after_ms == open.resumed_after_ms
            &&& segment.stop_reason == reason
            &&& segment.duration_ms == length
            &&& transition matches Transition::Stopped {
                segment: number,
                duration_ms,
                reason: why,
                ..
            } && number == open.index && duration_ms == length && why == reason
            &&& stopped.audio == r.audio
            &&& stopped.totals == r.totals
            &&& stopped.continuations == r.continuations
            &&& stopped.started_at == r.started_at
        }),
{
    lemma_millis_fit(r.audio.len() as int, r.settings.sample_rate);
    assert(r.segments.push(r.closed_segment(wall, reason)).drop_last() =~= r.segments);
}

proof fn lemma_hearing(r: RecorderView, blocks: Seq<(Seq<u32>, LevelSnapshot)>)
    ensures
        ({
            let heard = r.hearing(blocks);
            &&& heard == (RecorderView {
                audio: heard.audio,
                gap_audio: heard.gap_audio,
                totals: heard.totals,
                ..r
            })
            &&& heard.audio == if r.phase == Phase::Recording {
                r.audio + joined(blocks)
            } else {
                r.audio
            }
            &&& heard.gap_audio == if r.phase == Phase::Cooling && r.settings.gap
                == GapMode::Keep {
                r.gap_audio + joined(blocks)
            } else {
                r.gap_audio
            }
            &&& r.phase != Phase::Recording ==> heard.totals == r.totals
        }),
    decreases blocks.len(),
{
    if blocks.len() == 0 {
        assert(r.audio + joined(blocks) =~= r.audio);
        assert(r.gap_audio + joined(blocks) =~= r.gap_audio);
    } else {
        lemma_hearing(r, blocks.drop_last());
        let before = joined(blocks.drop_last());
        let last = blocks.last().0;
        assert(r.audio + (before + last) =~= r.audio + before + last);
        assert(r.gap_audio + (before + last) =~= r.gap_audio + before + last);
    }
}

/// What a pause becomes, for any blocks captured during it and any press inside the window:
/// the recording is the audio at the release, followed by all of the pause in order, by
/// nothing, or by that many milliseconds of digital silence. The continuation says how late
/// it came and where it starts.
pub proof fn law_a_pause_becomes_what_the_gap_says(
    r: RecorderView,
    released: Moment,
    released_at: Timestamp,
    reason: StopReason,
    blocks: Seq<(Seq<u32>, LevelSnapshot)>,
    pressed: Moment,
    pressed_at: Timestamp,
    pre_roll: Seq<u32>,
    speech: u32,
)
    requires
        r.phase == Phase::Recording,
        reason != StopReason::TotalLimit,
        reason != StopReason::SegmentLimit,
        reason != StopReason::Shutdown,
        r.segments.len() + 1 < r.settings.max_segments,
        released.nanos <= pressed.nanos < released.nanos + r.settings.cooldown_ms * 1_000_000,
    ensures
        ({
            let (cooling, closed) = r.stop(released, released_at, reason);
            let (resumed, transition) = cooling.hearing(blocks).start(
                pressed,
                pressed_at,
                pre_roll,
                speech,
            );
            let waited = (pressed.nanos - released.nanos) / 1_000_000;
            let pause = r.settings.silence_ms * r.settings.sample_rate / 1000;
            let open = resumed.open->0;
            &&& closed matches Transition::Stopped { cooldown_ms, .. } && cooldown_ms
                == r.settings.cooldown_ms
            &&& transition matches Transition::Resumed { segment, resumed_after_ms } && segment
                == r.segments.len() + 1 && resumed_after_ms == waited
            &&& resumed.phase == Phase::Recording
            &&& resumed.continuations == (r.continuations + 1) as u32
            &&& resumed.segments == cooling.segments
            &&& resumed.gap_audio.len() == 0
            &&& r.settings.gap == GapMode::Keep ==> resumed.audio == r.audio + joined(blocks)
            &&& r.settings.gap == GapMode::Drop ==> resumed.audio == r.audio
            &&& r.settings.gap == GapMode::Silence && pause <= usize::MAX ==> {
                &&& resumed.audio.len() == r.audio.len() + pause
                &&& r.audio.is_prefix_of(resumed.audio)
                &&& forall|i: int|
                    r.audio.len() <= i < resumed.audio.len() ==> #[trigger] resumed.audio[i] == 0
            }
            &&& resumed.open is Some
            &&& open.index == r.segments.len() + 1
            &&& open.key_down_at == pressed_at
            &&& open.key_down == pressed
            &&& open.pre_roll_ms == 0
            &&& open.speech_in_pre_roll_ms == 0
            &&& open.resumed_after_ms == Some(waited as u64)
            &&& r.settings.sample_rate > 0 && resumed.audio.len() * 1000 <= u64::MAX
                ==> open.start_offset_ms == resumed.audio.len() * 1000
                / r.settings.sample_rate as nat
        }),
{
    let cooling = r.stop(released, released_at, reason).0;
    assert(cooling.gap_audio.len() == 0);
    lemma_hearing(cooling, blocks);
    assert(cooling.gap_audio + joined(blocks) =~= joined(blocks));
    let waited = (pressed.nanos - released.nanos) / 1_000_000;
    assert(0 <= waited <= u64::MAX);
    assert(cooling.stopped == Some(released.nanos as int)) by {
        assert(r.settings.cooldown_ms != 0) by (nonlinear_arith)
            requires
                0 < r.settings.cooldown_ms * 1_000_000,
        ;
    }
    let heard = cooling.hearing(blocks);
    assert(heard.window_open(pressed));
    let resumed = heard.start(pressed, pressed_at, pre_roll, speech).0;
    lemma_pause_length(r.settings);
    if r.settings.sample_rate > 0 && resumed.audio.len() * 1000 <= u64::MAX {
        lemma_millis_fit(resumed.audio.len() as int, r.settings.sample_rate);
    }
}

proof fn lemma_pause_length(settings: Settings)
    ensures
        0 <= settings.silence_ms * settings.sample_rate / 1000,
{
    assert(0 <= settings.silence_ms * settings.sample_rate) by (nonlinear_arith)
        requires
            0 <= settings.silence_ms,
            0 <= settings.sample_rate,
    ;
}

/// A limit, a shutdown, the last segment allowed, or no window at all ends the session:
/// nothing that comes later continues it, and whatever was captured meanwhile is left out.
pub proof fn law_an_ended_session_stays_ended(
    r: RecorderView,
    released: Moment,
    released_at: Timestamp,
    reason: StopReason,
    blocks: Seq<(Seq<u32>, LevelSnapshot)>,
    later: Moment,
    later_at: Timestamp,
    pre_roll: Seq<u32>,
    speech: u32,
)
    requires
        r.phase == Phase::Recording,
        released.nanos <= later.nanos,
        ({
            ||| reason == StopReason::TotalLimit
            ||| reason == StopReason::SegmentLimit
            ||| reason == StopReason::Shutdown
            ||| r.settings.max_segments <= r.segments.len() + 1 <= u32::MAX
            ||| r.settings.cooldown_ms == 0
            ||| released.nanos + r.settings.cooldown_ms * 1_000_000 <= later.nanos
        }),
    ensures
        ({
            let cooling = r.stop(released, released_at, reason).0;
            let heard = cooling.hearing(blocks);
            let (pressed, on_press) = heard.start(later, later_at, pre_roll, speech);
            let (ticked, on_tick) = heard.tick(later, later_at);
            &&& on_press == Transition::Finalized
            &&& on_tick == Transition::Finalized
            &&& pressed == ticked
            &&& pressed.phase == Phase::Idle
            &&& pressed.audio == r.audio
            &&& pressed.segments == cooling.segments
            &&& pressed.continuations == r.continuations
            &&& heard.cooldown_remaining_ms(later) == 0
        }),
{
    let cooling = r.stop(released, released_at, reason).0;
    lemma_hearing(cooling, blocks);
}

/// A first segment, for any look-back and any blocks: the recording is the look-back
/// followed by every block in order, and the segment tells how long it is and when the key
/// went down and up.
pub proof fn law_a_first_segment_is_the_lookback_and_what_followed(
    r: RecorderView,
    pressed: Moment,
    pressed_at: Timestamp,
    pre_roll: Seq<u32>,
    speech: u32,
    blocks: Seq<(Seq<u32>, LevelSnapshot)>,
    released: Moment,
    released_at: Timestamp,
    reason: StopReason,
)
    requires
        r.phase == Phase::Idle,
        r.settings.sample_rate > 0,
        (pre_roll.len() + joined(blocks).len()) * 1000 <= u64::MAX,
        pre_roll.len() * 1000 / r.settings.sample_rate as nat <= u32::MAX,
    ensures
        ({
            let (begun, started) = r.start(pressed, pressed_at, pre_roll, speech);
            let (cooling, stopped) = begun.hearing(blocks).stop(released, released_at, reason);
            let segment = cooling.segments.last();
            let lookback = pre_roll.len() * 1000 / r.settings.sample_rate as nat;
            let length = (pre_roll.len() + joined(blocks).len()) * 1000
                / r.settings.sample_rate as nat;
            &&& started matches Transition::Started { segment, pre_roll_ms } && segment == 0
                && pre_roll_ms == lookback
            &&& stopped matches Transition::Stopped { segment, duration_ms, reason: why, .. }
                && segment == 0 && duration_ms == length && why == reason
            &&& cooling.phase == Phase::Cooling
            &&& cooling.audio == pre_roll + joined(blocks)
            &&& cooling.open is None
            &&& cooling.segments.len() == r.segments.len() + 1
            &&& cooling.segments.drop_last() == r.segments
            &&& segment.index == 0
            &&& segment.key_down_at == pressed_at
            &&& segment.key_up_at == Some(released_at)
            &&& segment.pre_roll_ms == lookback
            &&& segment.speech_in_pre_roll_ms == speech
            &&& segment.start_offset_ms == 0
            &&& segment.duration_ms == length
            &&& segment.resumed_after_ms is None
            &&& segment.stop_reason == reason
        }),
{
    let begun = r.start(pressed, pressed_at, pre_roll, speech).0;
    lemma_hearing(begun, blocks);
    let heard = begun.hearing(blocks);
    lemma_millis_fit(heard.audio.len() as int, r.settings.sample_rate);
    assert(pre_roll.len() * 1000 <= (pre_roll.len() + joined(blocks).len()) * 1000);
    lemma_millis_fit(pre_roll.len() as int, r.settings.sample_rate);
    assert(r.segments.push(heard.closed_segment(released_at, reason)).drop_last() =~= r.segments);
}

/// The session is dated by its first sample: a press dates it back by exactly the
/// milliseconds of look-back, to the nanosecond.
pub proof fn law_a_session_is_dated_by_its_first_sample(
    r: RecorderView,
    pressed: Moment,
    pressed_at: Timestamp,
    pre_roll: Seq<u32>,
    speech: u32,
)
    requires
        r.phase == Phase::Idle,
        r.can_start(pressed_at, pre_roll),
        r.settings.sample_rate > 0,
        pre_roll.len() * 1000 / r.settings.sample_rate as nat <= u32::MAX,
    ensures
        ({
            let at = r.start(pressed, pressed_at, pre_roll, speech).0.started_at;
            let lookback = pre_roll.len() * 1000 / r.settings.sample_rate as nat;
            &&& at is Some
            &&& (at->0).nanos < 1_000_000_000
            &&& (at->0).seconds * 1_000_000_000 + (at->0).nanos == pressed_at.seconds
                * 1_000_000_000 + pressed_at.nanos - lookback * 1_000_000
        }),
{
    lemma_millis_fit(pre_roll.len() as int, r.settings.sample_rate);
    let lookback = r.lookback_ms(pre_roll) as int;
    let total = pressed_at.total() - lookback * 1_000_000;
    assert(-400_000_000_000 <= total / 1_000_000_000 <= 400_000_000_000) by {
        assert(0 <= lookback * 1_000_000);
        assert(-377_705_116_800 * 1_000_000_000 <= total);
        assert(total <= 253_402_300_799 * 1_000_000_000 + 1_000_000_000);
    }
}

/// The two limits on a recording, for every moment: the watchdog fires once the key has been
/// held for its seconds, the total limit once that much audio was captured, and until then
/// time changes nothing.
pub proof fn law_limits_fire_at_their_seconds(r: RecorderView, now: Moment, wall: Timestamp)
    requires
        r.wf(),
        r.phase == Phase::Recording,
        r.settings.sample_rate > 0,
        (r.open->0).key_down.nanos <= now.nanos,
    ensures
        ({
            let held = (now.nanos - (r.open->0).key_down.nanos) / 1_000_000;
            let recorded = r.audio.len() * 1000 / r.settings.sample_rate as nat;
            let expired = held >= r.settings.max_recording_secs * 1000;
            let full = recorded >= r.settings.max_total_secs * 1000;
            let (ticked, transition) = r.tick(now, wall);
            &&& expired ==> (transition matches Transition::Stopped { reason, .. } && reason
                == StopReason::Watchdog)
            &&& !expired && full ==> (transition matches Transition::Stopped { reason, .. }
                && reason == StopReason::TotalLimit)
            &&& !expired && !full ==> transition == Transition::Nothing && ticked == r
            &&& expired || full ==> ticked.phase == Phase::Cooling && ticked.segments.len()
                == r.segments.len() + 1 && ticked.segments.last().key_up_at == Some(wall)
        }),
{
}

/// Whole milliseconds into the window, exactly the rest of it remains; at its end, none.
pub proof fn law_the_window_counts_down(
    r: RecorderView,
    released: Moment,
    released_at: Timestamp,
    elapsed_ms: int,
    now: Moment,
)
    requires
        r.phase == Phase::Recording,
        r.segments.len() + 1 < r.settings.max_segments,
        0 <= elapsed_ms <= r.settings.cooldown_ms,
        now.nanos == released.nanos + elapsed_ms * 1_000_000,
    ensures
        r.stop(released, released_at, StopReason::Released).0.cooldown_remaining_ms(now)
            == r.settings.cooldown_ms - elapsed_ms,
{
}

/// A recorder keeps to its profile: every limit and every mode is the one configured, but
/// that a gap nobody can capture is not kept.
pub proof fn law_a_recorder_keeps_to_its_profile(profile: Profile, sample_rate: u32)
    ensures
        ({
            let settings = settings_for(profile, sample_rate);
            let impossible = profile.capture.mode == CaptureMode::OnDemand
                && profile.continuation.gap == GapMode::Keep;
            &&& settings.sample_rate == sample_rate
            &&& settings.capture_mode == profile.capture.mode
            &&& settings.configured_pre_roll_ms == profile.capture.pre_roll_ms
            &&& settings.cooldown_ms == profile.session.cooldown_ms
            &&& settings.max_recording_secs == profile.session.max_recording_secs
            &&& settings.max_total_secs == profile.session.max_total_secs
            &&& settings.silence_ms == profile.continuation.silence_ms
            &&& settings.max_segments == profile.continuation.max_segments
            &&& !impossible ==> settings.gap == profile.continuation.gap
                && settings.gap_downgraded_to is None
            &&& impossible ==> settings.gap == GapMode::Drop && settings.gap_downgraded_to
                == Some(GapMode::Drop)
        }),
{
}

/// A finished recording is what was captured: all of the audio, every segment, and speech
/// and silence in milliseconds of that audio.
pub proof fn law_a_finished_recording_is_what_was_captured(
    finished: Finished,
    r: RecorderView,
    peak_dbfs: Single,
    mean_rms_dbfs: Single,
    now: Timestamp,
)
    requires
        finished.holds(r, peak_dbfs, mean_rms_dbfs, now),
        r.totals.sample_rate > 0,
        r.totals.wf(),
    ensures
        finished.audio@ == r.audio,
        finished.segments@ == r.segments,
        finished.continuations == r.continuations,
        finished.levels.peak_dbfs == peak_dbfs,
        finished.levels.mean_rms_dbfs == mean_rms_dbfs,
        finished.levels.speech_ms == r.totals.speech_samples * 1000
            / r.totals.sample_rate as int,
        finished.levels.silence_ms == r.totals.silence_samples * 1000
            / r.totals.sample_rate as int,
        finished.levels.clipped_samples == r.totals.clipped_samples,
        finished.capture.mode == r.settings.capture_mode,
        finished.capture.device@ == r.device,
        finished.capture.configured_pre_roll_ms == r.settings.configured_pre_roll_ms,
        finished.capture.gap == r.settings.gap,
        finished.capture.gap_downgraded_to == r.settings.gap_downgraded_to,
        r.started_at is Some ==> finished.started_at == r.started_at->0,
        r.started_at is None ==> finished.started_at == now,
{
    lemma_millis_fit(r.totals.speech_samples as int, r.totals.sample_rate);
    lemma_millis_fit(r.totals.silence_samples as int, r.totals.sample_rate);
}

proof fn lemma_millis_fit(samples: int, sample_rate: u32)
    requires
        0 <= samples,
        measurable(samples),
    ensures
        0 <= crate::audio::level::millis_of(samples, sample_rate) <= u64::MAX,
{
    if sample_rate != 0 {
        vstd::arithmetic::div_mod::lemma_div_is_ordered_by_denominator(
            samples * 1000,
            1,
            sample_rate as int,
        );
        vstd::arithmetic::div_mod::lemma_div_pos_is_pos(samples * 1000, sample_rate as int);
    }
}

proof fn lemma_millis_ascend(fewer: int, more: int, sample_rate: u32)
    requires
        0 <= fewer <= more,
    ensures
        0 <= crate::audio::level::millis_of(fewer, sample_rate)
            <= crate::audio::level::millis_of(more, sample_rate),
        fewer == 0 ==> crate::audio::level::millis_of(fewer, sample_rate) == 0,
{
    if sample_rate != 0 {
        vstd::arithmetic::div_mod::lemma_div_is_ordered(
            fewer * 1000,
            more * 1000,
            sample_rate as int,
        );
        vstd::arithmetic::div_mod::lemma_div_pos_is_pos(fewer * 1000, sample_rate as int);
        vstd::arithmetic::div_mod::lemma_div_basics(sample_rate as int);
    }
}

} // verus!
