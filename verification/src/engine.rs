//! The capture engine: the one place that knows about the microphone, the session in flight
//! and the deadlines between them.
//!
//! The engine decides; its caller acts. Each method takes what has happened (a keypress, a
//! block of captured audio, the passing of time, a device that opened) together with the
//! clocks' readings, and hands back what to do about it: events to publish, a device to let
//! go of, a recording to write out. Opening devices, writing files and reading clocks stay
//! with the caller.

use vstd::prelude::*;

use crate::audio::level::{LevelMeter, LevelSnapshot};
use crate::audio::preroll::{PreRollBuffer, PreRollView};
use crate::audio::source::DeviceInfo;
use crate::clock::{Moment, Timestamp};
use crate::config::profile::ProfileView;
use crate::config::{AudioConfig, CaptureMode, Config, DeviceSelector, Profile};
use crate::event::{DeviceCloseReason, Envelope, EnvelopeView, Event, EventView, Stage};
use crate::feedback::Filter;
use crate::protocol::{ActivityState, DeviceStatus};
use crate::recorder::{count_u32, Finished, Phase, Recorder, RecorderView, Transition};
use crate::session::{
    AudioSummary, InputWarningKind, Outcome, SessionId, SessionRecord, StopReason,
};
use crate::single::Single;
use crate::text::same_text;
use crate::EVENT_SCHEMA_VERSION;

verus! {

/// What the daemon asks the engine to do.
#[derive(Debug)]
pub enum Command {
    Start { profile: String },
    Stop { profile: String },
    Toggle { profile: String },
    Cancel,
    Reconfigure(Box<Config>),
    Shutdown,
}

/// What a command comes to, given what is going on.
#[derive(Debug)]
pub enum Step {
    /// The key of this profile is pressed.
    Press { profile: String },
    /// The key of this profile is let go.
    Release { profile: String },
    Cancel,
    Reconfigure(Box<Config>),
    Shutdown,
}

/// What the engine is doing, for `status`.
#[derive(Debug, PartialEq, Eq)]
pub struct Status {
    pub activity: ActivityState,
    pub session: Option<SessionId>,
    pub profile: Option<String>,
    pub device: Option<DeviceStatus>,
}

impl Default for Status {
    fn default() -> (result: Self)
        ensures
            result == (Status {
                activity: ActivityState::Idle,
                session: None,
                profile: None,
                device: None,
            }),
    {
        Status { activity: ActivityState::Idle, session: None, profile: None, device: None }
    }
}

impl Clone for Status {
    fn clone(&self) -> (result: Self)
        ensures
            result == *self,
    {
        Status {
            activity: self.activity,
            session: match &self.session {
                Some(session) => Some(session.clone()),
                None => None,
            },
            profile: match &self.profile {
                Some(profile) => Some(profile.clone()),
                None => None,
            },
            device: match &self.device {
                Some(device) => Some(device.clone()),
                None => None,
            },
        }
    }
}

/// Something the caller has to do.
#[derive(Debug)]
pub enum Action {
    /// Publish a line of the event stream.
    Emit(Envelope),
    /// Stop the capture device and let go of it.
    ReleaseDevice,
}

/// What an action says.
pub enum ActionView {
    Emit(EnvelopeView),
    ReleaseDevice,
}

impl View for Action {
    type V = ActionView;

    open spec fn view(&self) -> ActionView {
        match self {
            Action::Emit(line) => ActionView::Emit(line@),
            Action::ReleaseDevice => ActionView::ReleaseDevice,
        }
    }
}

/// What a list of actions says.
pub open spec fn actions_of(actions: Seq<Action>) -> Seq<ActionView> {
    actions.map_values(|action: Action| action@)
}

/// No actions at all.
pub open spec fn nothing() -> Seq<ActionView> {
    Seq::empty()
}

/// What a keypress calls for next.
#[derive(Debug)]
pub enum Press {
    /// There is no such profile, so nothing happens.
    Unknown,
    /// The session in flight goes on: [`Engine::proceed`].
    Proceed,
    /// The session in flight has to be finished first: [`Engine::conclude`], and then the
    /// press is looked at again. Two recordings never interleave on one microphone.
    Conclude,
    /// The device has to be opened first: [`Engine::opened`] or [`Engine::open_failed`].
    Open { device: DeviceSelector, sample_rate: u32 },
    /// Everything is in place: [`Engine::begin`].
    Begin,
}

/// What finishing the session in flight came to.
#[derive(Debug)]
pub enum Conclusion {
    /// There was none.
    Nothing,
    /// Nothing was captured, so there is nothing to write.
    Empty(Vec<Action>),
    /// A recording to write out; [`Engine::stored`] takes what came of that.
    Recording(Box<Recording>),
}

/// A recording that is ready to be written out.
#[derive(Debug)]
pub struct Recording {
    pub id: SessionId,
    pub profile_name: String,
    pub profile: Profile,
    pub finished: Finished,
    /// The rate it was captured at.
    pub sample_rate: u32,
    /// What it is to be normalised to before it is stored.
    pub target: AudioConfig,
}

/// A finished session, handed to the pipeline.
///
/// The capture thread does not run the pipeline itself: transcription and callbacks can take
/// tens of seconds, and the next recording must be able to start meanwhile.
#[derive(Debug)]
pub struct Handoff {
    pub record: SessionRecord,
    pub profile_name: String,
    pub profile: Profile,
}

/// How long a recording is, in milliseconds: the length of the file, which is not the sum of
/// the segments, since a kept pause is in the recording but belongs to no segment.
pub open spec fn file_ms(samples: int, sample_rate: u32) -> int {
    (samples * 1000) / (if sample_rate == 0 {
        1
    } else {
        sample_rate as int
    })
}

impl Recording {
    /// How many samples are stored: as many as were captured, at the rate asked for.
    pub open spec fn stored_samples(self) -> int {
        if self.sample_rate == 0 {
            self.finished.audio@.len() as int
        } else {
            crate::audio::resample::expected(
                self.finished.audio@.len() as int,
                self.sample_rate,
                self.target.sample_rate,
            )
        }
    }

    /// How long what is stored lasts, in milliseconds.
    pub open spec fn stored_ms(self) -> int {
        file_ms(self.stored_samples(), self.target.sample_rate)
    }

    /// How many channels are stored: as many as were asked for, and one at the least.
    pub open spec fn stored_channels(self) -> u16 {
        if self.target.channels == 0 {
            1
        } else {
            self.target.channels
        }
    }

    /// How many samples are stored on each channel.
    pub fn sample_count(&self) -> (result: u128)
        ensures
            result == self.stored_samples(),
    {
        let captured: u128 = self.finished.audio.len() as u128;
        if self.sample_rate == 0 {
            captured
        } else {
            proof {
                let (n, to) = (captured as int, self.target.sample_rate as int);
                assert(0 <= n * to <= u64::MAX * u32::MAX) by (nonlinear_arith)
                    requires
                        0 <= n <= u64::MAX,
                        0 <= to <= u32::MAX,
                ;
            }
            captured * self.target.sample_rate as u128 / self.sample_rate as u128
        }
    }

    /// How many channels are stored.
    pub fn channel_count(&self) -> (result: u16)
        ensures
            result == self.stored_channels(),
    {
        if self.target.channels == 0 {
            1
        } else {
            self.target.channels
        }
    }

    /// How long what is stored lasts, in milliseconds.
    pub fn duration_ms(&self) -> (result: u64)
        requires
            crate::recorder::measurable(self.finished.audio@.len() as int),
        ensures
            result == self.stored_ms(),
    {
        let rate: u128 = if self.target.sample_rate == 0 {
            1
        } else {
            self.target.sample_rate as u128
        };
        let samples: u128 = self.sample_count();
        proof {
            lemma_stored_ms_fit(
                self.finished.audio@.len() as int,
                self.sample_rate as int,
                self.target.sample_rate as int,
            );
        }
        (samples * 1000 / rate) as u64
    }
}

/// What is stored lasts no longer than a recording that can be measured.
proof fn lemma_stored_ms_fit(n: int, from: int, to: int)
    requires
        0 <= n,
        n * 1000 <= u64::MAX,
        0 <= from <= u32::MAX,
        0 <= to <= u32::MAX,
    ensures
        ({
            let samples = if from == 0 {
                n
            } else {
                (n * to) / from
            };
            let rate = if to == 0 {
                1
            } else {
                to
            };
            &&& 0 <= samples * 1000 <= u64::MAX * u32::MAX
            &&& 0 <= (samples * 1000) / rate <= u64::MAX
        }),
{
    let samples = if from == 0 {
        n
    } else {
        (n * to) / from
    };
    let rate = if to == 0 {
        1
    } else {
        to
    };
    if from > 0 {
        assert(0 <= (n * to) / from <= n * to) by (nonlinear_arith)
            requires
                0 <= n,
                0 <= to,
                0 < from,
        ;
    }
    assert(n * to <= n * rate && n <= n * rate) by (nonlinear_arith)
        requires
            0 <= n,
            to <= rate,
            1 <= rate,
    ;
    assert(samples * 1000 <= (n * 1000) * rate) by (nonlinear_arith)
        requires
            samples <= n * rate,
    ;
    assert((n * 1000) * rate <= u64::MAX * u32::MAX) by (nonlinear_arith)
        requires
            0 <= n * 1000 <= u64::MAX,
            1 <= rate <= u32::MAX,
    ;
    assert(0 <= (samples * 1000) / rate <= n * 1000) by (nonlinear_arith)
        requires
            0 <= samples * 1000 <= (n * 1000) * rate,
            1 <= rate,
    ;
}

impl Handoff {
    /// Whether this is the session that a recording became when it was written to `path`.
    pub open spec fn describes(
        self,
        recording: Recording,
        path: Seq<char>,
        bytes: u64,
        wall: Timestamp,
    ) -> bool {
        &&& self.profile_name == recording.profile_name
        &&& self.profile == recording.profile
        &&& self.record.v == EVENT_SCHEMA_VERSION
        &&& self.record.id == recording.id
        &&& self.record.profile == recording.profile_name
        &&& self.record.trigger == recording.profile.trigger
        &&& self.record.started_at == recording.finished.started_at
        &&& self.record.finalized_at == Some(wall)
        &&& self.record.capture == recording.finished.capture
        &&& self.record.segments == recording.finished.segments
        &&& self.record.continuations == recording.finished.continuations
        &&& self.record.audio.path@ == path
        &&& self.record.audio.format == recording.target.format
        &&& self.record.audio.sample_rate == recording.target.sample_rate
        &&& self.record.audio.channels == recording.stored_channels()
        &&& self.record.audio.bytes == bytes
        &&& self.record.audio.duration_ms == recording.stored_ms()
        &&& self.record.levels == recording.finished.levels
        &&& self.record.warnings@.len() == 0
        &&& self.record.transcript is None
        &&& self.record.sinks@.len() == 0
        &&& self.record.outcome == Outcome::Okay
    }
}

/// A session being recorded.
#[derive(Debug)]
struct Active {
    id: SessionId,
    profile_name: String,
    profile: Profile,
    recorder: Recorder,
}

/// A session being recorded, as contracts speak of it.
pub struct ActiveView {
    pub id: Seq<char>,
    pub profile_name: Seq<char>,
    pub profile: ProfileView,
    pub recorder: RecorderView,
}

impl Active {
    spec fn model(self) -> ActiveView {
        ActiveView {
            id: self.id@,
            profile_name: self.profile_name@,
            profile: self.profile@,
            recorder: self.recorder@,
        }
    }
}

/// How many samples make up the 20 ms blocks in which lookback is searched for speech.
pub open spec fn block_length(sample_rate: u32) -> int {
    if sample_rate < 50 {
        1
    } else {
        sample_rate as int / 50
    }
}

/// How many blocks `samples` samples make, the last one possibly short.
pub open spec fn block_count(samples: int, sample_rate: u32) -> int {
    (samples + block_length(sample_rate) - 1) / block_length(sample_rate)
}

/// How many of these levels are speech.
pub open spec fn speaking(levels: Seq<Single>, threshold: Single) -> nat {
    crate::lists::count(levels, |level: Single| level.at_least_spec(threshold))
}

/// How many milliseconds of speech that many blocks come to.
pub open spec fn speech_ms(blocks: nat, sample_rate: u32) -> u32 {
    let rate = if sample_rate == 0 { 1 } else { sample_rate as int };
    let ms = (blocks * block_length(sample_rate) * 1000) / rate;
    if ms <= u32::MAX {
        ms as u32
    } else {
        u32::MAX
    }
}

/// How much lookback a profile wants.
pub open spec fn wanted_lookback(profile: ProfileView) -> u32 {
    if profile.capture.mode == CaptureMode::Preroll {
        profile.capture.pre_roll_ms
    } else {
        0
    }
}

/// How long after `earlier` it is, in nanoseconds.
pub open spec fn nanos_since(now: Moment, earlier: Moment) -> int {
    if now.nanos > earlier.nanos {
        now.nanos - earlier.nanos
    } else {
        0
    }
}

/// Whether a device that nothing has used for `idle` nanoseconds is due to be let go of: no
/// profile asks to keep it forever, and one of them has waited long enough.
pub open spec fn release_due(profiles: Seq<(String, Profile)>, idle: int) -> bool {
    &&& forall|i: int|
        0 <= i < profiles.len() ==> #[trigger] profiles[i].1.capture.idle_release_secs > 0
    &&& exists|i: int|
        0 <= i < profiles.len() && idle >= #[trigger] profiles[i].1.capture.idle_release_secs
            * 1_000_000_000
}

/// What the engine is at any moment.
pub struct EngineView {
    pub config: Config,
    pub device: Option<DeviceInfo>,
    pub pre_roll: PreRollView,
    pub active: Option<ActiveView>,
    /// When something last happened that counts as using the microphone.
    pub last_activity: Moment,
    /// When a level was last reported.
    pub last_level: Moment,
    /// When the silence began that the recording is in, if it is in one.
    pub silent_since: Option<Moment>,
    /// Distinguishes sessions started inside the same second.
    pub nonce: u32,
}

impl EngineView {
    /// The actions that publish an event: one, unless the configuration suppresses it.
    pub open spec fn emit(self, line: EnvelopeView) -> Seq<ActionView> {
        if Filter::of(self.config.feedback).passes(line.event) {
            seq![ActionView::Emit(line)]
        } else {
            nothing()
        }
    }

    /// The actions that publish an event of a session.
    pub open spec fn tell(
        self,
        id: Seq<char>,
        profile: Seq<char>,
        wall: Timestamp,
        event: EventView,
    ) -> Seq<ActionView> {
        self.emit(crate::event::session_line(wall, id, profile, event))
    }

    /// The actions that publish an event of the daemon.
    pub open spec fn tell_all(self, wall: Timestamp, event: EventView) -> Seq<ActionView> {
        self.emit(crate::event::daemon_line(wall, event))
    }

    /// Whether a recording is running.
    pub open spec fn recording(self) -> bool {
        self.active matches Some(active) && active.recorder.phase == Phase::Recording
    }

    /// What a command comes to: a toggle lets go while a recording is running, and presses
    /// otherwise.
    pub open spec fn handle(self, command: Command) -> Step {
        match command {
            Command::Start { profile } => Step::Press { profile },
            Command::Stop { profile } => Step::Release { profile },
            Command::Toggle { profile } => if self.recording() {
                Step::Release { profile }
            } else {
                Step::Press { profile }
            },
            Command::Cancel => Step::Cancel,
            Command::Reconfigure(config) => Step::Reconfigure(config),
            Command::Shutdown => Step::Shutdown,
        }
    }

    /// The profile of this name.
    pub open spec fn profile(self, name: Seq<char>) -> Option<Profile> {
        crate::names::lookup(self.config.profiles@, name)
    }

    /// What the open device is called.
    pub open spec fn device_name(self) -> Seq<char> {
        match self.device {
            Some(device) => device.name@,
            None => "unknown"@,
        }
    }

    /// The rate audio is captured at.
    pub open spec fn capture_rate(self) -> u32 {
        match self.device {
            Some(device) => device.sample_rate,
            None => self.config.audio.sample_rate,
        }
    }

    /// Letting go of the device. Audio from before a device change is not lookback, it is a
    /// splice of two different microphones, so the window is emptied.
    pub open spec fn close(self, reason: DeviceCloseReason, wall: Timestamp) -> (
        EngineView,
        Seq<ActionView>,
    ) {
        if self.device is None {
            (self, nothing())
        } else {
            (
                EngineView {
                    device: None,
                    pre_roll: PreRollView { contents: Seq::empty(), ..self.pre_roll },
                    ..self
                },
                seq![ActionView::ReleaseDevice] + self.tell_all(
                    wall,
                    EventView::DeviceClosed { reason },
                ),
            )
        }
    }

    /// In on_demand mode the device exists only for the duration of a recording.
    pub open spec fn after_recording(self, profile: ProfileView, wall: Timestamp) -> (
        EngineView,
        Seq<ActionView>,
    ) {
        if profile.capture.mode == CaptureMode::OnDemand {
            self.close(DeviceCloseReason::RecordingEnded, wall)
        } else {
            (self, nothing())
        }
    }

    /// What a transition of the session is announced as.
    pub open spec fn announce(
        self,
        id: Seq<char>,
        profile: Seq<char>,
        transition: Transition,
        wall: Timestamp,
    ) -> Seq<ActionView> {
        match transition {
            Transition::Nothing => nothing(),
            Transition::Started { segment, pre_roll_ms } => self.tell(
                id,
                profile,
                wall,
                EventView::RecordingStarted { segment, pre_roll_ms, device: self.device_name() },
            ),
            Transition::Resumed { segment, resumed_after_ms } => self.tell(
                id,
                profile,
                wall,
                EventView::RecordingResumed { segment, resumed_after_ms },
            ),
            Transition::Stopped { segment, duration_ms, reason, cooldown_ms } => self.tell(
                id,
                profile,
                wall,
                EventView::RecordingStopped { segment, duration_ms, reason },
            ) + (if cooldown_ms > 0 {
                self.tell(id, profile, wall, EventView::CooldownStarted { ms: cooldown_ms })
            } else {
                nothing()
            }),
            Transition::Finalized => nothing(),
            Transition::Cancelled => self.tell(
                id,
                profile,
                wall,
                EventView::SessionCancelled { reason: "cancelled"@ },
            ),
        }
    }

    /// Whether the session in flight goes on when its key is pressed: it is being recorded,
    /// or its window is still open.
    pub open spec fn goes_on(self, now: Moment) -> bool {
        match self.active {
            Some(active) => match active.recorder.phase {
                Phase::Recording => true,
                Phase::Cooling => active.recorder.window_open(now),
                Phase::Idle => false,
            },
            None => false,
        }
    }

    /// What a press on a profile's key calls for next.
    pub open spec fn press(self, name: Seq<char>, now: Moment) -> Press {
        match self.profile(name) {
            None => Press::Unknown,
            Some(profile) => match self.active {
                Some(active) => if active.profile_name == name && self.goes_on(now) {
                    Press::Proceed
                } else {
                    Press::Conclude
                },
                None => if self.device is None {
                    Press::Open {
                        device: profile.capture.device,
                        sample_rate: self.config.audio.sample_rate,
                    }
                } else {
                    Press::Begin
                },
            },
        }
    }

    /// The lookback a press on this profile would begin with.
    pub open spec fn lookback(self, profile: Profile) -> Seq<u32> {
        self.pre_roll.last_ms(wanted_lookback(profile@))
    }

    /// The recorder of a session that has not started yet.
    pub open spec fn fresh_recorder(self, profile: Profile) -> RecorderView {
        RecorderView::fresh(
            crate::recorder::settings_for(profile, self.capture_rate()),
            self.device_name(),
            crate::audio::level::LevelTotals::fresh(self.capture_rate(), self.config.levels),
        )
    }

    /// The nonce of the next session.
    pub open spec fn next_nonce(self) -> u32 {
        if self.nonce == u32::MAX {
            0
        } else {
            (self.nonce + 1) as u32
        }
    }

    /// What beginning a session does. `levels` are the levels of the lookback, block by block.
    pub open spec fn begin(
        self,
        name: Seq<char>,
        levels: Seq<Single>,
        now: Moment,
        wall: Timestamp,
    ) -> (EngineView, Seq<ActionView>) {
        let profile = self.profile(name)->0;
        let speech = speech_ms(
            speaking(levels, self.config.levels.speech_dbfs.value),
            self.pre_roll.sample_rate,
        );
        let id = crate::session::id::id_text(wall, name, self.next_nonce());
        let (recorder, transition) = self.fresh_recorder(profile).start(
            now,
            wall,
            self.lookback(profile),
            speech,
        );
        (
            EngineView {
                active: Some(
                    ActiveView { id, profile_name: name, profile: profile@, recorder },
                ),
                nonce: self.next_nonce(),
                last_activity: now,
                silent_since: None,
                ..self
            },
            self.announce(id, name, transition, wall),
        )
    }

    /// What a press does to a session that goes on.
    pub open spec fn proceed(self, now: Moment, wall: Timestamp) -> (EngineView, Seq<ActionView>) {
        let active = self.active->0;
        let (recorder, transition) = active.recorder.start(now, wall, Seq::empty(), 0);
        (
            EngineView {
                active: Some(ActiveView { recorder, ..active }),
                last_activity: now,
                silent_since: if active.recorder.phase == Phase::Recording {
                    self.silent_since
                } else {
                    None
                },
                ..self
            },
            self.announce(active.id, active.profile_name, transition, wall),
        )
    }

    /// What a release does. A release without a press, or of another profile's key, does
    /// nothing.
    pub open spec fn stop(self, name: Seq<char>, now: Moment, wall: Timestamp) -> (
        EngineView,
        Seq<ActionView>,
    ) {
        match self.active {
            Some(active) => if active.profile_name == name {
                let (recorder, transition) = active.recorder.stop(now, wall, StopReason::Released);
                (
                    EngineView {
                        active: Some(ActiveView { recorder, ..active }),
                        last_activity: now,
                        ..self
                    },
                    self.announce(active.id, active.profile_name, transition, wall),
                )
            } else {
                (self, nothing())
            },
            None => (self, nothing()),
        }
    }

    /// What abandoning the session in flight does.
    pub open spec fn cancel(self, wall: Timestamp) -> (EngineView, Seq<ActionView>) {
        match self.active {
            Some(active) => {
                let (after, released) = (EngineView { active: None, ..self }).after_recording(
                    active.profile,
                    wall,
                );
                (
                    after,
                    self.tell(
                        active.id,
                        active.profile_name,
                        wall,
                        EventView::SessionCancelled { reason: "cancelled by the user"@ },
                    ) + released,
                )
            },
            None => (self, nothing()),
        }
    }

    /// What the passing of time does to the session in flight. Whether it is over is the last
    /// part of the result.
    pub open spec fn advance(self, now: Moment, wall: Timestamp) -> (
        EngineView,
        Seq<ActionView>,
        bool,
    ) {
        match self.active {
            Some(active) => {
                let (recorder, transition) = active.recorder.tick(now, wall);
                (
                    EngineView { active: Some(ActiveView { recorder, ..active }), ..self },
                    self.announce(active.id, active.profile_name, transition, wall),
                    transition == Transition::Finalized,
                )
            },
            None => (self, nothing(), false),
        }
    }

    /// What the passing of time does to the device: one whose stream died is let go of with
    /// an error, and one that has been idle for long enough is let go of to save power.
    pub open spec fn watch_device(self, failed: bool, now: Moment, wall: Timestamp) -> (
        EngineView,
        Seq<ActionView>,
    ) {
        if self.device is Some && failed {
            let (after, released) = self.close(DeviceCloseReason::Lost, wall);
            (
                after,
                self.tell_all(
                    wall,
                    EventView::Error {
                        stage: Stage::Capture,
                        message: "the capture stream failed"@,
                    },
                ) + released,
            )
        } else if self.device is Some && self.active is None && release_due(
            self.config.profiles@,
            nanos_since(now, self.last_activity),
        ) {
            self.close(DeviceCloseReason::Idle, wall)
        } else {
            (self, nothing())
        }
    }

    /// Whether a level is due to be reported: twenty a second are smooth to watch, and nobody
    /// could draw one for every block.
    pub open spec fn level_due(self, now: Moment) -> bool {
        &&& self.active matches Some(active) && active.recorder.phase == Phase::Recording
        &&& self.config.feedback.enabled && self.config.feedback.listening
        &&& nanos_since(now, self.last_level) >= self.config.feedback.level_interval_ms * 1_000_000
    }

    /// What a block of captured audio does.
    pub open spec fn captured(
        self,
        samples: Seq<u32>,
        snapshot: LevelSnapshot,
        now: Moment,
        wall: Timestamp,
    ) -> (EngineView, Seq<ActionView>) {
        if self.device is None || samples.len() == 0 {
            (self, nothing())
        } else {
            let pre_roll = self.pre_roll.after(samples);
            match self.active {
                Some(active) => {
                    let recorder = active.recorder.push(samples, snapshot);
                    let after = EngineView {
                        pre_roll,
                        active: Some(ActiveView { recorder, ..active }),
                        silent_since: self.silence(snapshot, now),
                        ..self
                    };
                    if self.level_due(now) {
                        (
                            EngineView { last_level: now, ..after },
                            self.levels(snapshot, now, wall),
                        )
                    } else {
                        (after, nothing())
                    }
                },
                None => (EngineView { pre_roll, ..self }, nothing()),
            }
        }
    }

    /// When the silence began that a block of audio belongs to, if it is silent.
    pub open spec fn silence(self, snapshot: LevelSnapshot, now: Moment) -> Option<Moment> {
        if !self.recording() || crate::audio::level::warning_for(
            snapshot.clipping,
            snapshot.peak_dbfs,
            snapshot.rms_dbfs,
            self.config.levels,
        ) != Some(InputWarningKind::Silence) {
            None
        } else if self.silent_since is Some {
            self.silent_since
        } else {
            Some(now)
        }
    }

    /// The warning that a block of audio warrants, if any. Silence is worth mentioning only
    /// once it has persisted for as long as the configuration says.
    pub open spec fn warning(self, snapshot: LevelSnapshot, now: Moment) -> Option<
        InputWarningKind,
    > {
        match self.silence(snapshot, now) {
            Some(since) => if nanos_since(now, since) >= self.config.levels.silence_warn_after_ms
                * 1_000_000 {
                Some(InputWarningKind::Silence)
            } else {
                None
            },
            None => crate::audio::level::warning_for(
                snapshot.clipping,
                snapshot.peak_dbfs,
                snapshot.rms_dbfs,
                self.config.levels,
            ),
        }
    }

    /// A level report: the measurement, and the warning it warrants, if any.
    pub open spec fn levels(self, snapshot: LevelSnapshot, now: Moment, wall: Timestamp) -> Seq<
        ActionView,
    > {
        let active = self.active->0;
        self.tell(
            active.id,
            active.profile_name,
            wall,
            EventView::Level {
                rms_dbfs: snapshot.rms_dbfs,
                peak_dbfs: snapshot.peak_dbfs,
                speech: snapshot.speech,
                clipping: snapshot.clipping,
            },
        ) + (match self.warning(snapshot, now) {
            Some(kind) => self.tell(
                active.id,
                active.profile_name,
                wall,
                EventView::InputWarning { kind, detail: None },
            ),
            None => nothing(),
        })
    }

    /// What a device that opened does: the lookback window starts out empty.
    pub open spec fn opened(self, profile: Profile, info: DeviceInfo, wall: Timestamp) -> (
        EngineView,
        Seq<ActionView>,
    ) {
        (
            EngineView {
                device: Some(info),
                pre_roll: PreRollView {
                    contents: Seq::empty(),
                    capacity: crate::audio::preroll::samples_for(
                        info.sample_rate,
                        wanted_lookback(profile@),
                    ),
                    sample_rate: info.sample_rate,
                },
                ..self
            },
            self.tell_all(
                wall,
                EventView::DeviceOpened {
                    device: info.name@,
                    sample_rate: info.sample_rate,
                    channels: info.channels,
                },
            ),
        )
    }

    /// What the engine is doing.
    pub open spec fn activity(self, now: Moment) -> ActivityState {
        match self.active {
            None => ActivityState::Idle,
            Some(active) => match active.recorder.phase {
                Phase::Recording => ActivityState::Recording {
                    segment: match active.recorder.open {
                        Some(segment) => segment.index,
                        None => 0,
                    },
                    elapsed_ms: active.recorder.segment_elapsed_ms(now) as u64,
                },
                Phase::Cooling => ActivityState::Cooling {
                    remaining_ms: active.recorder.cooldown_remaining_ms(now) as u32,
                },
                Phase::Idle => ActivityState::Idle,
            },
        }
    }
}

/// The state behind the decisions.
#[derive(Debug)]
pub struct Engine {
    config: Config,
    device: Option<DeviceInfo>,
    pre_roll: PreRollBuffer,
    active: Option<Active>,
    last_activity: Moment,
    last_level: Moment,
    silent_since: Option<Moment>,
    nonce: u32,
}

impl View for Engine {
    type V = EngineView;

    closed spec fn view(&self) -> EngineView {
        EngineView {
            config: self.config,
            device: self.device,
            pre_roll: self.pre_roll@,
            active: match self.active {
                Some(active) => Some(active.model()),
                None => None,
            },
            last_activity: self.last_activity,
            last_level: self.last_level,
            silent_since: self.silent_since,
            nonce: self.nonce,
        }
    }
}

impl Engine {
    /// Whether the session in flight is one that recording leads to.
    pub closed spec fn wf(self) -> bool {
        self.active matches Some(active) ==> active.recorder.wf()
    }

    /// An engine with no device open and nothing in flight.
    pub fn new(config: Config, now: Moment) -> (result: Self)
        ensures
            result.wf(),
            result@.config == config,
            result@.device is None,
            result@.pre_roll == (PreRollView {
                contents: Seq::empty(),
                capacity: 0,
                sample_rate: 16_000,
            }),
            result@.silent_since is None,
            result@.active is None,
            result@.last_activity == now,
            result@.last_level == now,
            result@.nonce == 0,
    {
        Engine {
            config,
            device: None,
            pre_roll: PreRollBuffer::new(16_000, 0),
            active: None,
            last_activity: now,
            last_level: now,
            silent_since: None,
            nonce: 0,
        }
    }

    /// The configuration in effect.
    pub fn config(&self) -> (result: &Config)
        ensures
            *result == self@.config,
    {
        &self.config
    }

    /// The open device.
    pub fn device(&self) -> (result: Option<&DeviceInfo>)
        ensures
            match result {
                Some(device) => self@.device == Some(*device),
                None => self@.device is None,
            },
    {
        match &self.device {
            Some(device) => Some(device),
            None => None,
        }
    }

    /// The running level totals of the session in flight.
    pub fn totals(&self) -> (result: Option<crate::audio::level::LevelTotals>)
        ensures
            result == (match self@.active {
                Some(active) => Some(active.recorder.totals),
                None => None,
            }),
    {
        match &self.active {
            Some(active) => Some(active.recorder.totals()),
            None => None,
        }
    }

    /// Whether a recording is running.
    pub fn is_recording(&self) -> (result: bool)
        ensures
            result == self@.recording(),
    {
        match &self.active {
            Some(active) => active.recorder.phase() == Phase::Recording,
            None => false,
        }
    }

    /// What a command comes to: a toggle lets go while a recording is running, and presses
    /// otherwise.
    pub fn handle(&self, command: Command) -> (result: Step)
        ensures
            result == self@.handle(command),
    {
        match command {
            Command::Start { profile } => Step::Press { profile },
            Command::Stop { profile } => Step::Release { profile },
            Command::Toggle { profile } => {
                if self.is_recording() {
                    Step::Release { profile }
                } else {
                    Step::Press { profile }
                }
            },
            Command::Cancel => Step::Cancel,
            Command::Reconfigure(config) => Step::Reconfigure(config),
            Command::Shutdown => Step::Shutdown,
        }
    }

    fn emit(&self, actions: &mut Vec<Action>, line: Envelope)
        ensures
            actions_of(final(actions)@) == actions_of(old(actions)@) + self@.emit(line@),
    {
        let ghost before = actions@;
        if Filter::new(&self.config.feedback).allows(&line.event) {
            actions.push(Action::Emit(line));
            assert(actions_of(actions@) =~= actions_of(before) + self@.emit(line@));
        } else {
            assert(actions_of(actions@) =~= actions_of(before) + self@.emit(line@));
        }
    }

    fn tell(
        &self,
        actions: &mut Vec<Action>,
        id: &SessionId,
        profile: &String,
        wall: Timestamp,
        event: Event,
    )
        ensures
            actions_of(final(actions)@) == actions_of(old(actions)@) + self@.tell(
                id@,
                profile@,
                wall,
                event@,
            ),
    {
        self.emit(actions, Envelope::for_session(wall, id.clone(), profile.clone(), event));
    }

    fn tell_all(&self, actions: &mut Vec<Action>, wall: Timestamp, event: Event)
        ensures
            actions_of(final(actions)@) == actions_of(old(actions)@) + self@.tell_all(wall, event@),
    {
        self.emit(actions, Envelope::for_daemon(wall, event));
    }

    fn device_name(&self) -> (result: String)
        ensures
            result@ == self@.device_name(),
    {
        match &self.device {
            Some(device) => device.name.clone(),
            None => "unknown".to_owned(),
        }
    }

    /// The rate audio is captured at.
    pub fn capture_rate(&self) -> (result: u32)
        ensures
            result == self@.capture_rate(),
    {
        match &self.device {
            Some(device) => device.sample_rate,
            None => self.config.audio.sample_rate,
        }
    }

    /// Announce a transition of the session.
    fn announce(&self, id: &SessionId, profile: &String, transition: Transition, wall: Timestamp)
        -> (result: Vec<Action>)
        ensures
            actions_of(result@) == self@.announce(id@, profile@, transition, wall),
    {
        let mut actions: Vec<Action> = Vec::new();
        let ghost none = actions_of(actions@);
        assert(none =~= nothing());
        match transition {
            Transition::Nothing => {},
            Transition::Started { segment, pre_roll_ms } => {
                let device = self.device_name();
                self.tell(
                    &mut actions,
                    id,
                    profile,
                    wall,
                    Event::RecordingStarted { segment, pre_roll_ms, device },
                );
            },
            Transition::Resumed { segment, resumed_after_ms } => {
                self.tell(
                    &mut actions,
                    id,
                    profile,
                    wall,
                    Event::RecordingResumed { segment, resumed_after_ms },
                );
            },
            Transition::Stopped { segment, duration_ms, reason, cooldown_ms } => {
                self.tell(
                    &mut actions,
                    id,
                    profile,
                    wall,
                    Event::RecordingStopped { segment, duration_ms, reason },
                );
                if cooldown_ms > 0 {
                    self.tell(
                        &mut actions,
                        id,
                        profile,
                        wall,
                        Event::CooldownStarted { ms: cooldown_ms },
                    );
                }
            },
            Transition::Finalized => {},
            Transition::Cancelled => {
                self.tell(
                    &mut actions,
                    id,
                    profile,
                    wall,
                    Event::SessionCancelled { reason: "cancelled".to_owned() },
                );
            },
        }
        assert(actions_of(actions@) =~= self@.announce(id@, profile@, transition, wall));
        actions
    }

    /// Let go of the device.
    pub fn close(&mut self, reason: DeviceCloseReason, wall: Timestamp) -> (result: Vec<Action>)
        requires
            old(self).wf(),
        ensures
            final(self).wf(),
            (final(self)@, actions_of(result@)) == old(self)@.close(reason, wall),
    {
        let mut actions: Vec<Action> = Vec::new();
        assert(actions_of(actions@) =~= nothing());
        if self.device.is_some() {
            self.device = None;
            self.pre_roll.clear();
            actions.push(Action::ReleaseDevice);
            assert(actions_of(actions@) =~= seq![ActionView::ReleaseDevice]);
            self.tell_all(&mut actions, wall, Event::DeviceClosed { reason });
        }
        actions
    }

    /// Let go of the device if the profile only holds it while recording.
    fn after_recording(&mut self, profile: &Profile, wall: Timestamp) -> (result: Vec<Action>)
        requires
            old(self).wf(),
        ensures
            final(self).wf(),
            (final(self)@, actions_of(result@)) == old(self)@.after_recording(profile@, wall),
    {
        if profile.capture.mode == CaptureMode::OnDemand {
            self.close(DeviceCloseReason::RecordingEnded, wall)
        } else {
            let actions: Vec<Action> = Vec::new();
            assert(actions_of(actions@) =~= nothing());
            actions
        }
    }

    /// What a press on a profile's key calls for next.
    pub fn press(&self, profile_name: &str, now: Moment) -> (result: Press)
        requires
            self.wf(),
        ensures
            result == self@.press(profile_name@, now),
    {
        match self.config.profiles.get(profile_name) {
            None => Press::Unknown,
            Some(profile) => match &self.active {
                Some(active) => {
                    let goes_on = match active.recorder.phase() {
                        Phase::Recording => true,
                        Phase::Cooling => active.recorder.window_open(now),
                        Phase::Idle => false,
                    };
                    if same_text(active.profile_name.as_str(), profile_name) && goes_on {
                        Press::Proceed
                    } else {
                        Press::Conclude
                    }
                },
                None => if self.device.is_none() {
                    Press::Open {
                        device: profile.capture.device.clone(),
                        sample_rate: self.config.audio.sample_rate,
                    }
                } else {
                    Press::Begin
                },
            },
        }
    }

    /// The device has been opened for a profile.
    pub fn opened(&mut self, profile_name: &str, info: DeviceInfo, wall: Timestamp) -> (result: Vec<
        Action,
    >)
        requires
            old(self).wf(),
            old(self)@.device is None,
            old(self)@.profile(profile_name@) is Some,
        ensures
            final(self).wf(),
            (final(self)@, actions_of(result@)) == old(self)@.opened(
                old(self)@.profile(profile_name@)->0,
                info,
                wall,
            ),
    {
        let window: u32 = self.lookback_window(profile_name);
        let mut actions: Vec<Action> = Vec::new();
        assert(actions_of(actions@) =~= nothing());
        self.tell_all(
            &mut actions,
            wall,
            Event::DeviceOpened {
                device: info.name.clone(),
                sample_rate: info.sample_rate,
                channels: info.channels,
            },
        );
        self.pre_roll = PreRollBuffer::new(info.sample_rate, window);
        self.device = Some(info);
        assert(actions_of(actions@) =~= old(self)@.opened(
            old(self)@.profile(profile_name@)->0,
            info,
            wall,
        ).1);
        actions
    }

    /// The device could not be opened: say so, and why.
    pub fn open_failed(&self, error: &str, wall: Timestamp) -> (result: Vec<Action>)
        ensures
            actions_of(result@) == self@.tell_all(
                wall,
                EventView::Error { stage: Stage::Capture, message: error@ },
            ) + self@.tell_all(
                wall,
                EventView::InputWarning { kind: InputWarningKind::NoDevice, detail: Some(error@) },
            ),
    {
        let mut actions: Vec<Action> = Vec::new();
        assert(actions_of(actions@) =~= nothing());
        self.tell_all(
            &mut actions,
            wall,
            Event::Error { stage: Stage::Capture, message: error.to_owned() },
        );
        self.tell_all(
            &mut actions,
            wall,
            Event::InputWarning {
                kind: InputWarningKind::NoDevice,
                detail: Some(error.to_owned()),
            },
        );
        assert(actions_of(actions@) =~= self@.tell_all(
            wall,
            EventView::Error { stage: Stage::Capture, message: error@ },
        ) + self@.tell_all(
            wall,
            EventView::InputWarning { kind: InputWarningKind::NoDevice, detail: Some(error@) },
        ));
        actions
    }

    fn lookback_window(&self, profile_name: &str) -> (result: u32)
        requires
            self@.profile(profile_name@) is Some,
        ensures
            result == wanted_lookback((self@.profile(profile_name@)->0)@),
    {
        match self.config.profiles.get(profile_name) {
            Some(profile) => {
                if profile.capture.mode == CaptureMode::Preroll {
                    profile.capture.pre_roll_ms
                } else {
                    0
                }
            },
            None => 0,
        }
    }

    /// The audio from before the keypress that a session of this profile would begin with.
    pub fn lookback(&self, profile_name: &str) -> (result: Vec<u32>)
        requires
            self@.profile(profile_name@) is Some,
        ensures
            result@ == self@.lookback(self@.profile(profile_name@)->0),
            result@.len() * 1000 <= u64::MAX,
    {
        let window: u32 = self.lookback_window(profile_name);
        self.pre_roll.take_last_ms(window)
    }

    /// How many samples make up the blocks in which lookback is measured.
    pub fn lookback_block(&self) -> (result: usize)
        ensures
            result == block_length(self@.pre_roll.sample_rate),
            result > 0,
    {
        let rate: u32 = self.pre_roll.sample_rate();
        if rate < 50 {
            1
        } else {
            (rate / 50) as usize
        }
    }

    /// How many milliseconds of the lookback are speech, given the level of each block.
    fn speech_ms_in(&self, levels: &Vec<Single>) -> (result: u32)
        ensures
            result == speech_ms(
                speaking(levels@, self@.config.levels.speech_dbfs.value),
                self@.pre_roll.sample_rate,
            ),
    {
        let threshold = self.config.levels.speech_dbfs.value;
        let ghost heard = |level: Single| level.at_least_spec(threshold);
        let mut count: u64 = 0;
        let mut i: usize = 0;
        while i < levels.len()
            invariant
                i <= levels.len(),
                count <= i,
                heard == (|level: Single| level.at_least_spec(threshold)),
                count == crate::lists::count(levels@.take(i as int), heard),
            decreases levels.len() - i,
        {
            proof {
                crate::lists::lemma_count_one_more(levels@, heard, i as int);
            }
            if levels[i].at_least(threshold) {
                count += 1;
            }
            i += 1;
        }
        assert(levels@.take(i as int) =~= levels@);
        let rate: u32 = self.pre_roll.sample_rate();
        let divisor: u128 = if rate == 0 {
            1
        } else {
            rate as u128
        };
        let block: u128 = self.lookback_block() as u128;
        assert(0 <= count * block <= 0x1_0000_0000_0000_0000 * 0x1_0000_0000) by (nonlinear_arith)
            requires
                0 <= count <= u64::MAX,
                0 <= block <= u32::MAX,
        ;
        let ms: u128 = count as u128 * block * 1000 / divisor;
        if ms <= u32::MAX as u128 {
            ms as u32
        } else {
            u32::MAX
        }
    }

    /// Whether a session of this profile could begin now: the instant its lookback starts at
    /// is one a timestamp can name.
    pub fn can_begin(&self, profile_name: &str, wall: Timestamp) -> (result: bool)
        requires
            self@.profile(profile_name@) is Some,
        ensures
            result == (wall.valid() && self@.fresh_recorder(
                self@.profile(profile_name@)->0,
            ).can_start(wall, self@.lookback(self@.profile(profile_name@)->0))),
    {
        match self.config.profiles.get(profile_name) {
            Some(profile) => {
                let recorder = Recorder::new(
                    profile,
                    &self.config.levels,
                    self.capture_rate(),
                    self.device_name(),
                );
                recorder.accepts_press(wall, self.lookback(profile_name).as_slice())
            },
            None => false,
        }
    }

    /// Begin a session. `levels` are the levels of the lookback in dBFS, one for each of the
    /// blocks of [`Engine::lookback_block`] samples it divides into.
    pub fn begin(&mut self, profile_name: &str, levels: &Vec<Single>, now: Moment, wall: Timestamp)
        -> (result: Vec<Action>)
        requires
            old(self).wf(),
            old(self)@.active is None,
            old(self)@.device is Some,
            old(self)@.profile(profile_name@) is Some,
            levels@.len() == block_count(
                old(self)@.lookback(old(self)@.profile(profile_name@)->0).len() as int,
                old(self)@.pre_roll.sample_rate,
            ),
            wall.valid(),
            old(self)@.fresh_recorder(old(self)@.profile(profile_name@)->0).can_start(
                wall,
                old(self)@.lookback(old(self)@.profile(profile_name@)->0),
            ),
        ensures
            final(self).wf(),
            (final(self)@, actions_of(result@)) == old(self)@.begin(
                profile_name@,
                levels@,
                now,
                wall,
            ),
    {
        let profile = match self.config.profiles.get(profile_name) {
            Some(profile) => profile.clone(),
            None => {
                return Vec::new();
            },
        };
        let pre_roll = self.lookback(profile_name);
        let speech: u32 = self.speech_ms_in(levels);
        self.nonce = if self.nonce == u32::MAX {
            0
        } else {
            self.nonce + 1
        };
        let id = SessionId::new(wall, profile_name, self.nonce);
        let mut recorder = Recorder::new(
            &profile,
            &self.config.levels,
            self.capture_rate(),
            self.device_name(),
        );
        let transition = recorder.start(now, wall, pre_roll, speech);
        let name = profile_name.to_owned();
        let actions = self.announce(&id, &name, transition, wall);
        self.active = Some(Active { id, profile_name: name, profile, recorder });
        self.last_activity = now;
        self.silent_since = None;
        actions
    }

    /// Whether a press can be added to the session in flight.
    pub fn can_proceed(&self, wall: Timestamp) -> (result: bool)
        requires
            self.wf(),
        ensures
            result == (self@.active matches Some(active) && active.recorder.can_start(
                wall,
                Seq::empty(),
            )),
    {
        match &self.active {
            Some(active) => {
                let none: Vec<u32> = Vec::new();
                assert(none@ =~= Seq::<u32>::empty());
                active.recorder.accepts_press(wall, none.as_slice())
            },
            None => false,
        }
    }

    /// A press on the key of a session that goes on: it resumes inside its window, and a key
    /// repeat while recording does nothing.
    pub fn proceed(&mut self, now: Moment, wall: Timestamp) -> (result: Vec<Action>)
        requires
            old(self).wf(),
            old(self)@.goes_on(now),
            (old(self)@.active->0).recorder.can_start(wall, Seq::empty()),
        ensures
            final(self).wf(),
            (final(self)@, actions_of(result@)) == old(self)@.proceed(now, wall),
    {
        match self.active.take() {
            Some(mut active) => {
                let none: Vec<u32> = Vec::new();
                assert(none@ =~= Seq::<u32>::empty());
                if active.recorder.phase() != Phase::Recording {
                    self.silent_since = None;
                }
                let transition = active.recorder.start(now, wall, none, 0);
                let actions = self.announce(&active.id, &active.profile_name, transition, wall);
                self.active = Some(active);
                self.last_activity = now;
                actions
            },
            None => Vec::new(),
        }
    }

    /// A release of a profile's key.
    pub fn stop(&mut self, profile_name: &str, now: Moment, wall: Timestamp) -> (result: Vec<Action>)
        requires
            old(self).wf(),
        ensures
            final(self).wf(),
            (final(self)@, actions_of(result@)) == old(self)@.stop(profile_name@, now, wall),
    {
        let nothing_to_do: Vec<Action> = Vec::new();
        assert(actions_of(nothing_to_do@) =~= nothing());
        match self.active.take() {
            Some(mut active) => {
                if !same_text(active.profile_name.as_str(), profile_name) {
                    self.active = Some(active);
                    return nothing_to_do;
                }
                let transition = active.recorder.stop(now, wall, StopReason::Released);
                let actions = self.announce(&active.id, &active.profile_name, transition, wall);
                self.active = Some(active);
                self.last_activity = now;
                actions
            },
            None => nothing_to_do,
        }
    }

    /// Abandon the session in flight. Nothing downstream runs.
    pub fn cancel(&mut self, wall: Timestamp) -> (result: Vec<Action>)
        requires
            old(self).wf(),
        ensures
            final(self).wf(),
            (final(self)@, actions_of(result@)) == old(self)@.cancel(wall),
    {
        let mut actions: Vec<Action> = Vec::new();
        assert(actions_of(actions@) =~= nothing());
        match self.active.take() {
            Some(active) => {
                self.tell(
                    &mut actions,
                    &active.id,
                    &active.profile_name,
                    wall,
                    Event::SessionCancelled { reason: "cancelled by the user".to_owned() },
                );
                let ghost told = actions@;
                let mut released = self.after_recording(&active.profile, wall);
                let ghost rest = released@;
                actions.append(&mut released);
                assert(actions_of(actions@) =~= actions_of(told) + actions_of(rest));
                assert(actions_of(actions@) =~= old(self)@.cancel(wall).1);
                actions
            },
            None => actions,
        }
    }

    /// Advance the deadlines of the session in flight. The second part says whether it is
    /// over, and [`Engine::conclude`] is due.
    pub fn advance(&mut self, now: Moment, wall: Timestamp) -> (result: (Vec<Action>, bool))
        requires
            old(self).wf(),
        ensures
            final(self).wf(),
            (final(self)@, actions_of(result.0@), result.1) == old(self)@.advance(now, wall),
    {
        match self.active.take() {
            Some(mut active) => {
                let transition = active.recorder.tick(now, wall);
                let actions = self.announce(&active.id, &active.profile_name, transition, wall);
                self.active = Some(active);
                (actions, transition == Transition::Finalized)
            },
            None => {
                let actions: Vec<Action> = Vec::new();
                assert(actions_of(actions@) =~= nothing());
                (actions, false)
            },
        }
    }

    /// Advance the deadlines of the device. `failed` says whether its stream has died.
    pub fn watch_device(&mut self, failed: bool, now: Moment, wall: Timestamp) -> (result: Vec<
        Action,
    >)
        requires
            old(self).wf(),
        ensures
            final(self).wf(),
            (final(self)@, actions_of(result@)) == old(self)@.watch_device(failed, now, wall),
    {
        let mut actions: Vec<Action> = Vec::new();
        assert(actions_of(actions@) =~= nothing());
        if self.device.is_some() && failed {
            self.tell_all(
                &mut actions,
                wall,
                Event::Error {
                    stage: Stage::Capture,
                    message: "the capture stream failed".to_owned(),
                },
            );
            let ghost told = actions@;
            let mut released = self.close(DeviceCloseReason::Lost, wall);
            let ghost rest = released@;
            actions.append(&mut released);
            assert(actions_of(actions@) =~= actions_of(told) + actions_of(rest));
            assert(actions_of(actions@) =~= old(self)@.watch_device(failed, now, wall).1);
            actions
        } else if self.device.is_some() && self.active.is_none() && self.release_due(now) {
            self.close(DeviceCloseReason::Idle, wall)
        } else {
            actions
        }
    }

    /// Whether the device has been idle for long enough to be let go of.
    fn release_due(&self, now: Moment) -> (result: bool)
        ensures
            result == release_due(
                self@.config.profiles@,
                nanos_since(now, self@.last_activity),
            ),
    {
        let idle: u64 = if now.nanos > self.last_activity.nanos {
            now.nanos - self.last_activity.nanos
        } else {
            0
        };
        let profiles = self.config.profiles.entries();
        let mut waited = false;
        let mut i: usize = 0;
        while i < profiles.len()
            invariant
                i <= profiles.len(),
                profiles@ == self.config.profiles@,
                idle == nanos_since(now, self.last_activity),
                forall|j: int|
                    0 <= j < i ==> #[trigger] profiles@[j].1.capture.idle_release_secs > 0,
                waited == exists|j: int|
                    0 <= j < i && idle >= #[trigger] profiles@[j].1.capture.idle_release_secs
                        * 1_000_000_000,
            decreases profiles.len() - i,
        {
            let seconds: u32 = profiles[i].1.capture.idle_release_secs;
            if seconds == 0 {
                assert(profiles@[i as int].1.capture.idle_release_secs == 0);
                return false;
            }
            if idle >= seconds as u64 * 1_000_000_000 {
                assert(idle >= profiles@[i as int].1.capture.idle_release_secs * 1_000_000_000);
                waited = true;
            }
            i += 1;
        }
        waited
    }

    /// Whether a block of captured audio can be taken in.
    pub fn can_capture(&self, samples: &[u32], rms_dbfs: Single, peak_dbfs: Single) -> (result: bool)
        requires
            self.wf(),
        ensures
            result == (self@.active matches Some(active) ==> active.recorder.can_push(
                samples@,
                crate::audio::level::snapshot_of(
                    self@.config.levels,
                    samples@,
                    rms_dbfs,
                    peak_dbfs,
                ),
            )),
    {
        match &self.active {
            Some(active) => {
                let meter = LevelMeter::new(self.config.levels.clone());
                let snapshot = meter.measure(samples, rms_dbfs, peak_dbfs);
                active.recorder.accepts_audio(samples, &snapshot)
            },
            None => true,
        }
    }

    /// A block of audio has been captured; `rms_dbfs` and `peak_dbfs` are its levels.
    ///
    /// It goes into the lookback window and into the session in flight, and its level is
    /// reported when a report is due.
    pub fn captured(
        &mut self,
        samples: &[u32],
        rms_dbfs: Single,
        peak_dbfs: Single,
        now: Moment,
        wall: Timestamp,
    ) -> (result: Vec<Action>)
        requires
            old(self).wf(),
            old(self)@.active matches Some(active) ==> active.recorder.can_push(
                samples@,
                crate::audio::level::snapshot_of(
                    old(self)@.config.levels,
                    samples@,
                    rms_dbfs,
                    peak_dbfs,
                ),
            ),
        ensures
            final(self).wf(),
            (final(self)@, actions_of(result@)) == old(self)@.captured(
                samples@,
                crate::audio::level::snapshot_of(
                    old(self)@.config.levels,
                    samples@,
                    rms_dbfs,
                    peak_dbfs,
                ),
                now,
                wall,
            ),
    {
        let mut actions: Vec<Action> = Vec::new();
        assert(actions_of(actions@) =~= nothing());
        if self.device.is_none() || samples.len() == 0 {
            return actions;
        }
        let meter = LevelMeter::new(self.config.levels.clone());
        let snapshot = meter.measure(samples, rms_dbfs, peak_dbfs);
        self.pre_roll.push(samples);
        match self.active.take() {
            Some(mut active) => {
                let warning = self.judge(meter.warning(&snapshot), active.recorder.phase(), now);
                active.recorder.push(samples, &snapshot);
                if active.recorder.phase() == Phase::Recording && self.level_interval_over(now) {
                    self.last_level = now;
                    self.tell(
                        &mut actions,
                        &active.id,
                        &active.profile_name,
                        wall,
                        Event::Level {
                            rms_dbfs: snapshot.rms_dbfs,
                            peak_dbfs: snapshot.peak_dbfs,
                            speech: snapshot.speech,
                            clipping: snapshot.clipping,
                        },
                    );
                    match warning {
                        Some(kind) => {
                            self.tell(
                                &mut actions,
                                &active.id,
                                &active.profile_name,
                                wall,
                                Event::InputWarning { kind, detail: None },
                            );
                        },
                        None => {},
                    }
                    assert(actions_of(actions@) =~= old(self)@.levels(snapshot, now, wall));
                }
                self.active = Some(active);
            },
            None => {},
        }
        actions
    }

    /// Keeps track of how long silence has lasted, and says which warning is due: silence is
    /// worth mentioning only once it has persisted.
    fn judge(&mut self, warning: Option<InputWarningKind>, phase: Phase, now: Moment) -> (result:
        Option<InputWarningKind>)
        ensures
            final(self)@ == (EngineView {
                silent_since: if phase != Phase::Recording || warning
                    != Some(InputWarningKind::Silence) {
                    None
                } else if old(self)@.silent_since is Some {
                    old(self)@.silent_since
                } else {
                    Some(now)
                },
                ..old(self)@
            }),
            final(self).active == old(self).active,
            result == (match final(self)@.silent_since {
                Some(since) => if nanos_since(now, since)
                    >= old(self)@.config.levels.silence_warn_after_ms * 1_000_000 {
                    Some(InputWarningKind::Silence)
                } else {
                    None
                },
                None => warning,
            }),
    {
        let silent = match warning {
            Some(kind) => phase == Phase::Recording && kind == InputWarningKind::Silence,
            None => false,
        };
        if !silent {
            self.silent_since = None;
            return warning;
        }
        let since: Moment = match self.silent_since {
            Some(since) => since,
            None => now,
        };
        self.silent_since = Some(since);
        let lasted: u64 = if now.nanos > since.nanos {
            now.nanos - since.nanos
        } else {
            0
        };
        if lasted >= self.config.levels.silence_warn_after_ms as u64 * 1_000_000 {
            Some(InputWarningKind::Silence)
        } else {
            None
        }
    }

    /// Whether levels are wanted, and the last report was long enough ago.
    fn level_interval_over(&self, now: Moment) -> (result: bool)
        ensures
            result == (self@.config.feedback.enabled && self@.config.feedback.listening
                && nanos_since(now, self@.last_level) >= self@.config.feedback.level_interval_ms
                * 1_000_000),
    {
        let elapsed: u64 = if now.nanos > self.last_level.nanos {
            now.nanos - self.last_level.nanos
        } else {
            0
        };
        self.config.feedback.enabled && self.config.feedback.listening && elapsed
            >= self.config.feedback.level_interval_ms as u64 * 1_000_000
    }

    /// Finish the session in flight. `peak_dbfs` and `mean_rms_dbfs` are the levels of what
    /// it captured.
    pub fn conclude(&mut self, peak_dbfs: Single, mean_rms_dbfs: Single, wall: Timestamp) -> (result:
        Conclusion)
        requires
            old(self).wf(),
            wall.valid(),
        ensures
            final(self).wf(),
            match old(self)@.active {
                None => result is Nothing && final(self)@ == old(self)@,
                Some(active) => {
                    let without = EngineView { active: None, ..old(self)@ };
                    if active.recorder.audio.len() == 0 {
                        &&& result matches Conclusion::Empty(actions)
                        &&& (final(self)@, actions_of(actions@)) == without.after_recording(
                            active.profile,
                            wall,
                        )
                    } else {
                        &&& result matches Conclusion::Recording(recording)
                        &&& final(self)@ == without
                        &&& recording.id@ == active.id
                        &&& recording.profile_name@ == active.profile_name
                        &&& recording.profile@ == active.profile
                        &&& recording.sample_rate == old(self)@.capture_rate()
                        &&& recording.target == old(self)@.config.audio
                        &&& recording.finished.holds(
                            active.recorder,
                            peak_dbfs,
                            mean_rms_dbfs,
                            wall,
                        )
                        &&& recording.finished.started_at.valid()
                        &&& crate::recorder::measurable(recording.finished.audio@.len() as int)
                    }
                },
            },
    {
        match self.active.take() {
            Some(active) => {
                let finished = active.recorder.finish(peak_dbfs, mean_rms_dbfs, wall);
                if finished.audio.len() == 0 {
                    return Conclusion::Empty(self.after_recording(&active.profile, wall));
                }
                Conclusion::Recording(
                    Box::new(
                        Recording {
                            id: active.id,
                            profile_name: active.profile_name,
                            profile: active.profile,
                            finished,
                            sample_rate: self.capture_rate(),
                            target: self.config.audio,
                        },
                    ),
                )
            },
            None => Conclusion::Nothing,
        }
    }

    /// A recording has been written out: `written` is where, and how many bytes it took, or
    /// what went wrong.
    ///
    /// A recording that could not be written is reported and goes no further. Otherwise the
    /// session is announced and handed on.
    pub fn stored(
        &mut self,
        recording: Recording,
        written: Result<(String, u64), String>,
        wall: Timestamp,
    ) -> (result: (Option<Handoff>, Vec<Action>))
        requires
            old(self).wf(),
            crate::recorder::measurable(recording.finished.audio@.len() as int),
        ensures
            final(self).wf(),
            ({
                let (after, released) = old(self)@.after_recording(recording.profile@, wall);
                &&& final(self)@ == after
                &&& match written {
                    Ok((path, bytes)) => {
                        &&& result.0 matches Some(handoff)
                        &&& handoff.describes(recording, path@, bytes, wall)
                        &&& actions_of(result.1@) == old(self)@.tell(
                            recording.id@,
                            recording.profile_name@,
                            wall,
                            EventView::SessionFinalized {
                                audio_path: path@,
                                total_ms: recording.stored_ms() as u64,
                                segments: crate::recorder::as_count(
                                    recording.finished.segments@.len(),
                                ),
                            },
                        ) + released
                    },
                    Err(error) => {
                        &&& result.0 is None
                        &&& actions_of(result.1@) == old(self)@.tell_all(
                            wall,
                            EventView::Error { stage: Stage::Storage, message: error@ },
                        ) + released
                    },
                }
            }),
    {
        let mut actions: Vec<Action> = Vec::new();
        assert(actions_of(actions@) =~= nothing());
        let ghost outcome = written;
        let handoff = match written {
            Ok((path, bytes)) => {
                let total_ms: u64 = recording.duration_ms();
                let channels: u16 = recording.channel_count();
                let segments: u32 = count_u32(recording.finished.segments.len());
                self.tell(
                    &mut actions,
                    &recording.id,
                    &recording.profile_name,
                    wall,
                    Event::SessionFinalized { audio_path: path.clone(), total_ms, segments },
                );
                let record = SessionRecord {
                    v: EVENT_SCHEMA_VERSION,
                    id: recording.id,
                    profile: recording.profile_name.clone(),
                    trigger: recording.profile.trigger,
                    started_at: recording.finished.started_at,
                    finalized_at: Some(wall),
                    capture: recording.finished.capture,
                    segments: recording.finished.segments,
                    continuations: recording.finished.continuations,
                    audio: AudioSummary {
                        path,
                        format: recording.target.format,
                        sample_rate: recording.target.sample_rate,
                        channels,
                        bytes,
                        duration_ms: total_ms,
                    },
                    levels: recording.finished.levels,
                    warnings: Vec::new(),
                    transcript: None,
                    sinks: Vec::new(),
                    outcome: Outcome::Okay,
                };
                let ghost told = actions@;
                let mut released = self.after_recording(&recording.profile, wall);
                let ghost rest = released@;
                actions.append(&mut released);
                assert(actions_of(actions@) =~= actions_of(told) + actions_of(rest));
                Some(
                    Handoff {
                        record,
                        profile_name: recording.profile_name,
                        profile: recording.profile,
                    },
                )
            },
            Err(error) => {
                self.tell_all(
                    &mut actions,
                    wall,
                    Event::Error { stage: Stage::Storage, message: error },
                );
                let ghost told = actions@;
                let mut released = self.after_recording(&recording.profile, wall);
                let ghost rest = released@;
                actions.append(&mut released);
                assert(actions_of(actions@) =~= actions_of(told) + actions_of(rest));
                None
            },
        };
        proof {
            let released = old(self)@.after_recording(recording.profile@, wall).1;
            match outcome {
                Ok((path, bytes)) => {
                    assert(actions_of(actions@) =~= old(self)@.tell(
                        recording.id@,
                        recording.profile_name@,
                        wall,
                        EventView::SessionFinalized {
                            audio_path: path@,
                            total_ms: recording.stored_ms() as u64,
                            segments: crate::recorder::as_count(recording.finished.segments@.len()),
                        },
                    ) + released);
                },
                Err(error) => {
                    assert(actions_of(actions@) =~= old(self)@.tell_all(
                        wall,
                        EventView::Error { stage: Stage::Storage, message: error@ },
                    ) + released);
                },
            }
        }
        (handoff, actions)
    }

    /// The daemon is shutting down: end the segment that is being recorded, so that
    /// [`Engine::conclude`] finds everything in it.
    pub fn halt(&mut self, now: Moment, wall: Timestamp)
        requires
            old(self).wf(),
        ensures
            final(self).wf(),
            final(self)@ == (match old(self)@.active {
                Some(active) => EngineView {
                    active: Some(
                        ActiveView {
                            recorder: active.recorder.stop(now, wall, StopReason::Shutdown).0,
                            ..active
                        },
                    ),
                    ..old(self)@
                },
                None => old(self)@,
            }),
    {
        match self.active.take() {
            Some(mut active) => {
                let _ = active.recorder.stop(now, wall, StopReason::Shutdown);
                self.active = Some(active);
            },
            None => {},
        }
    }

    /// A new configuration takes effect. It can change the device or the lookback window, so
    /// the device is let go of.
    pub fn reconfigure(&mut self, config: Config, wall: Timestamp) -> (result: Vec<Action>)
        requires
            old(self).wf(),
        ensures
            final(self).wf(),
            (final(self)@, actions_of(result@)) == (EngineView { config, ..old(self)@ }).close(
                DeviceCloseReason::Shutdown,
                wall,
            ),
    {
        self.config = config;
        self.close(DeviceCloseReason::Shutdown, wall)
    }

    /// What the engine is doing.
    pub fn status(&self, now: Moment) -> (result: Status)
        requires
            self.wf(),
        ensures
            result.activity == self@.activity(now),
            match self@.active {
                Some(active) => {
                    &&& result.session matches Some(session) && session@ == active.id
                    &&& result.profile matches Some(profile) && profile@ == active.profile_name
                },
                None => result.session is None && result.profile is None,
            },
            result.device == (match self@.device {
                Some(device) => Some(
                    DeviceStatus {
                        name: device.name,
                        sample_rate: device.sample_rate,
                        channels: device.channels,
                        pre_roll_available_ms: self@.pre_roll.available_ms_spec(),
                    },
                ),
                None => None,
            }),
    {
        Status {
            activity: match &self.active {
                None => ActivityState::Idle,
                Some(active) => match active.recorder.phase() {
                    Phase::Recording => ActivityState::Recording {
                        segment: active.recorder.segment_index(),
                        elapsed_ms: active.recorder.segment_elapsed_ms(now),
                    },
                    Phase::Cooling => ActivityState::Cooling {
                        remaining_ms: active.recorder.cooldown_remaining_ms(now),
                    },
                    Phase::Idle => ActivityState::Idle,
                },
            },
            session: match &self.active {
                Some(active) => Some(active.id.clone()),
                None => None,
            },
            profile: match &self.active {
                Some(active) => Some(active.profile_name.clone()),
                None => None,
            },
            device: match &self.device {
                Some(device) => Some(
                    DeviceStatus {
                        name: device.name.clone(),
                        sample_rate: device.sample_rate,
                        channels: device.channels,
                        pre_roll_available_ms: self.pre_roll.available_ms(),
                    },
                ),
                None => None,
            },
        }
    }
}

/// A press on the key of a known profile leads to a recording in at most three steps: a
/// session in flight that does not go on is finished, the device is opened, and the session
/// begins. At the end, the profile is being recorded.
pub proof fn law_a_press_leads_to_a_recording(
    engine: EngineView,
    name: Seq<char>,
    info: DeviceInfo,
    levels: Seq<Single>,
    now: Moment,
    wall: Timestamp,
)
    requires
        engine.profile(name) is Some,
        engine.press(name, now) != Press::Proceed,
    ensures
        ({
            let finished = EngineView { active: None, ..engine };
            let ready = if finished.device is None {
                finished.opened(engine.profile(name)->0, info, wall).0
            } else {
                finished
            };
            let recording = ready.begin(name, levels, now, wall).0;
            &&& engine.press(name, now) is Conclude == engine.active is Some
            &&& finished.press(name, now) is Open || finished.press(name, now) is Begin
            &&& ready.press(name, now) == Press::Begin
            &&& recording.active matches Some(active) && active.profile_name == name
                && active.recorder.phase == Phase::Recording
            &&& recording.press(name, now) == Press::Proceed
        }),
{
}

/// A toggle lets go of the recording that a toggle began, and after that it presses again.
pub proof fn law_a_toggle_alternates(
    engine: EngineView,
    profile: String,
    levels: Seq<Single>,
    now: Moment,
    wall: Timestamp,
    later: Moment,
    later_wall: Timestamp,
)
    requires
        !engine.recording(),
    ensures
        ({
            let toggle = Command::Toggle { profile };
            let recording = engine.begin(profile@, levels, now, wall).0;
            let released = recording.stop(profile@, later, later_wall).0;
            &&& engine.handle(toggle) == Step::Press { profile }
            &&& recording.handle(toggle) == Step::Release { profile }
            &&& released.handle(toggle) == Step::Press { profile }
        }),
{
}

/// No two sessions in a row share an id, whoever starts them and however fast: not even the
/// session after the nonce has wrapped around.
pub proof fn law_the_next_session_has_another_id(
    engine: EngineView,
    first: Seq<char>,
    levels: Seq<Single>,
    now: Moment,
    wall: Timestamp,
    second: Seq<char>,
    next_levels: Seq<Single>,
    later: Moment,
    later_wall: Timestamp,
)
    ensures
        ({
            let one = engine.begin(first, levels, now, wall).0;
            let two = (EngineView { active: None, ..one }).begin(
                second,
                next_levels,
                later,
                later_wall,
            ).0;
            (one.active->0).id != (two.active->0).id
        }),
{
    let one = engine.begin(first, levels, now, wall).0;
    crate::session::id::law_nonces_keep_ids_apart(
        wall,
        first,
        one.nonce,
        later_wall,
        second,
        one.next_nonce(),
    );
}

/// A release without a press does nothing, and neither does releasing another profile's key.
pub proof fn law_a_stray_release_does_nothing(
    engine: EngineView,
    name: Seq<char>,
    now: Moment,
    wall: Timestamp,
)
    requires
        engine.active matches Some(active) ==> active.profile_name != name,
    ensures
        engine.stop(name, now, wall) == (engine, nothing()),
{
}

/// Releasing twice is releasing once: the second release announces nothing and leaves the
/// session as it is.
pub proof fn law_releasing_twice_announces_once(
    engine: EngineView,
    name: Seq<char>,
    now: Moment,
    wall: Timestamp,
    later: Moment,
    later_wall: Timestamp,
)
    ensures
        ({
            let once = engine.stop(name, now, wall).0;
            let twice = once.stop(name, later, later_wall);
            &&& twice.1 == nothing()
            &&& twice.0.active == once.active
        }),
{
}

/// Cancelling discards everything: no session is left that could be written out.
pub proof fn law_cancelling_leaves_nothing_to_write(engine: EngineView, wall: Timestamp)
    ensures
        engine.cancel(wall).0.active is None,
        engine.active matches Some(active) && active.profile.capture.mode == CaptureMode::OnDemand
            ==> engine.cancel(wall).0.device is None,
{
}

/// With feedback off, nothing that drives an indicator is emitted, whatever happens to the
/// session: not its start, its levels, its end or its continuation.
pub proof fn law_feedback_off_is_silence(
    engine: EngineView,
    id: Seq<char>,
    profile: Seq<char>,
    transition: Transition,
    samples: Seq<u32>,
    snapshot: LevelSnapshot,
    now: Moment,
    wall: Timestamp,
)
    requires
        !(engine.config.feedback.enabled && engine.config.feedback.listening),
    ensures
        transition != Transition::Cancelled ==> engine.announce(id, profile, transition, wall)
            == nothing(),
        engine.captured(samples, snapshot, now, wall).1 == nothing(),
{
    assert(nothing() + nothing() =~= nothing());
}

/// Nothing captured before the device was let go of can become lookback.
pub proof fn law_a_closed_device_leaves_no_lookback(
    engine: EngineView,
    reason: DeviceCloseReason,
    wall: Timestamp,
    profile: Profile,
    info: DeviceInfo,
)
    requires
        engine.device is Some,
    ensures
        engine.close(reason, wall).0.device is None,
        engine.close(reason, wall).0.lookback(profile).len() == 0,
        engine.close(reason, wall).0.opened(profile, info, wall).0.lookback(profile).len() == 0,
{
    crate::audio::preroll::law_lookback_is_a_suffix(
        engine.close(reason, wall).0.pre_roll,
        wanted_lookback(profile@),
    );
    crate::audio::preroll::law_lookback_is_a_suffix(
        engine.close(reason, wall).0.opened(profile, info, wall).0.pre_roll,
        wanted_lookback(profile@),
    );
}

/// The device is never let go of for being idle while a session is in flight, nor while a
/// profile asks to keep it.
pub proof fn law_a_session_keeps_its_device(
    engine: EngineView,
    now: Moment,
    wall: Timestamp,
    i: int,
)
    requires
        engine.active is Some || (0 <= i < engine.config.profiles@.len()
            && engine.config.profiles@[i].1.capture.idle_release_secs == 0),
    ensures
        engine.watch_device(false, now, wall) == (engine, nothing()),
{
}

/// Ticking at a limit ends the segment and says so: the watchdog is what makes a missed
/// release survivable.
pub proof fn law_the_watchdog_is_announced(engine: EngineView, now: Moment, wall: Timestamp)
    requires
        engine.active matches Some(active) && active.recorder.phase == Phase::Recording
            && active.recorder.segment_elapsed_ms(now) >= active.recorder.settings.max_recording_secs
            * 1000,
        Filter::of(engine.config.feedback).passes(
            EventView::RecordingStopped { segment: 0, duration_ms: 0, reason: StopReason::Watchdog },
        ),
    ensures
        ({
            let actions = engine.advance(now, wall).1;
            &&& actions.len() > 0
            &&& actions[0] matches ActionView::Emit(line)
            &&& line.event matches EventView::RecordingStopped { reason, .. }
            &&& reason == StopReason::Watchdog
        }),
        !engine.advance(now, wall).2,
{
}

/// Silence is not mentioned before it has persisted: the block that begins it brings no
/// warning of it, and a block that is not silent ends it.
pub proof fn law_silence_must_persist(engine: EngineView, snapshot: LevelSnapshot, now: Moment)
    requires
        engine.config.levels.silence_warn_after_ms > 0,
        engine.recording(),
    ensures
        engine.silent_since is None ==> engine.warning(snapshot, now) != Some(
            InputWarningKind::Silence,
        ),
        engine.warning(snapshot, now) == Some(InputWarningKind::Silence) ==> nanos_since(
            now,
            engine.silent_since->0,
        ) >= engine.config.levels.silence_warn_after_ms * 1_000_000,
        crate::audio::level::warning_for(
            snapshot.clipping,
            snapshot.peak_dbfs,
            snapshot.rms_dbfs,
            engine.config.levels,
        ) != Some(InputWarningKind::Silence) ==> engine.silence(snapshot, now) is None,
{
}

/// Where the rate that was captured at is the rate asked for, nothing is converted: what is
/// stored is what was captured, and lasts as long.
pub proof fn law_matching_rates_keep_the_duration(recording: Recording)
    requires
        recording.sample_rate == recording.target.sample_rate,
    ensures
        recording.stored_samples() == recording.finished.audio@.len(),
        recording.stored_ms() == file_ms(
            recording.finished.audio@.len() as int,
            recording.sample_rate,
        ),
{
    let n = recording.finished.audio@.len() as int;
    let rate = recording.sample_rate as int;
    if rate > 0 {
        assert((n * rate) / rate == n) by (nonlinear_arith)
            requires
                rate > 0,
        ;
    }
}

// ── what time and sound lead to ─────────────────────────────────────────────

/// An idle device is released exactly when every profile allows it and one of them has waited
/// its seconds, and never while a session is on. One that failed is released at once, and the
/// failure is reported.
pub proof fn law_an_idle_device_is_released_after_its_seconds(
    engine: EngineView,
    now: Moment,
    wall: Timestamp,
)
    requires
        engine.device is Some,
        engine.last_activity.nanos <= now.nanos,
    ensures
        ({
            let profiles = engine.config.profiles@;
            let idle = now.nanos - engine.last_activity.nanos;
            let due = engine.active is None && (forall|i: int|
                0 <= i < profiles.len() ==> (#[trigger] profiles[i]).1.capture.idle_release_secs
                    >= 1) && exists|i: int|
                0 <= i < profiles.len() && idle >= (
                #[trigger] profiles[i]).1.capture.idle_release_secs * 1000 * 1_000_000;
            let (after, actions) = engine.watch_device(false, now, wall);
            let (lost, reported) = engine.watch_device(true, now, wall);
            &&& due ==> after.device is None && actions.len() > 0 && actions[0]
                == ActionView::ReleaseDevice && after.pre_roll.contents.len() == 0
            &&& !due ==> after == engine && actions.len() == 0
            &&& after.active == engine.active
            &&& lost.device is None && lost.pre_roll.contents.len() == 0
            &&& reported.len() >= 2 && reported[0] == ActionView::Emit(
                crate::event::daemon_line(
                    wall,
                    EventView::Error {
                        stage: Stage::Capture,
                        message: "the capture stream failed"@,
                    },
                ),
            ) && reported[1] == ActionView::ReleaseDevice
            &&& lost.active == engine.active
        }),
{
    let profiles = engine.config.profiles@;
    let idle = now.nanos - engine.last_activity.nanos;
    if release_due(profiles, idle) {
        let i = choose|i: int|
            0 <= i < profiles.len() && idle >= #[trigger] profiles[i].1.capture.idle_release_secs
                * 1_000_000_000;
        assert(idle >= profiles[i].1.capture.idle_release_secs * 1000 * 1_000_000);
        assert forall|k: int| 0 <= k < profiles.len() implies (
        #[trigger] profiles[k]).1.capture.idle_release_secs >= 1 by {
            assert(profiles[k].1.capture.idle_release_secs > 0);
        }
    } else if (forall|i: int|
        0 <= i < profiles.len() ==> (#[trigger] profiles[i]).1.capture.idle_release_secs >= 1) {
        assert forall|i: int| 0 <= i < profiles.len() implies idle < (
        #[trigger] profiles[i]).1.capture.idle_release_secs * 1000 * 1_000_000 by {
            assert(!(idle >= profiles[i].1.capture.idle_release_secs * 1_000_000_000));
        }
    }
}

/// Captured audio goes to the look-back and to the session alike. Levels are told of it at
/// most once in every interval, while recording and with the listening indicator on, and the
/// moment of the last telling is kept.
pub proof fn law_captured_audio_is_kept_and_levels_are_throttled(
    engine: EngineView,
    samples: Seq<u32>,
    snapshot: LevelSnapshot,
    now: Moment,
    wall: Timestamp,
)
    requires
        engine.device is Some,
        samples.len() > 0,
        engine.last_level.nanos <= now.nanos,
    ensures
        ({
            let (after, actions) = engine.captured(samples, snapshot, now, wall);
            let due = engine.active is Some && (engine.active->0).recorder.phase
                == Phase::Recording && engine.config.feedback.enabled
                && engine.config.feedback.listening && now.nanos - engine.last_level.nanos
                >= engine.config.feedback.level_interval_ms * 1_000_000;
            &&& after.pre_roll == engine.pre_roll.after(samples)
            &&& engine.active matches Some(active) ==> after.active is Some && (
            after.active->0).recorder == active.recorder.push(samples, snapshot) && (
            after.active->0).id == active.id && (after.active->0).profile_name
                == active.profile_name && (after.active->0).profile == active.profile
            &&& engine.active is None ==> after.active is None
            &&& after.last_level == if due {
                now
            } else {
                engine.last_level
            }
            &&& !due ==> actions.len() == 0
            &&& due ==> actions.len() >= 1 && actions[0] == ActionView::Emit(
                crate::event::session_line(
                    wall,
                    (engine.active->0).id,
                    (engine.active->0).profile_name,
                    EventView::Level {
                        rms_dbfs: snapshot.rms_dbfs,
                        peak_dbfs: snapshot.peak_dbfs,
                        speech: snapshot.speech,
                        clipping: snapshot.clipping,
                    },
                ),
            )
            &&& due && engine.warning(snapshot, now) is None ==> actions.len() == 1
            &&& due && engine.warning(snapshot, now) is Some ==> actions.len() == 2 && actions[1]
                == ActionView::Emit(
                crate::event::session_line(
                    wall,
                    (engine.active->0).id,
                    (engine.active->0).profile_name,
                    EventView::InputWarning {
                        kind: engine.warning(snapshot, now)->0,
                        detail: None,
                    },
                ),
            )
            &&& after.device == engine.device
            &&& after.nonce == engine.nonce
            &&& after.last_activity == engine.last_activity
            &&& after.config == engine.config
        }),
{
}

/// Silence is warned of exactly when it has lasted its milliseconds: it counts from the first
/// silent block of a recording, and a block with anything in it starts the count afresh.
pub proof fn law_silence_is_warned_of_after_its_milliseconds(
    engine: EngineView,
    snapshot: LevelSnapshot,
    now: Moment,
    wall: Timestamp,
)
    requires
        engine.active is Some,
        (engine.active->0).recorder.phase == Phase::Recording,
        engine.silent_since matches Some(since) ==> since.nanos <= now.nanos,
    ensures
        ({
            let silent = !snapshot.clipping && snapshot.peak_dbfs.below_spec(
                engine.config.levels.silence_dbfs.value,
            );
            let since = match engine.silent_since {
                Some(since) => since.nanos,
                None => now.nanos,
            };
            &&& engine.silence(snapshot, now) is Some <==> silent
            &&& silent ==> (engine.silence(snapshot, now)->0).nanos == since
            &&& silent && now.nanos - since >= engine.config.levels.silence_warn_after_ms
                * 1_000_000 ==> engine.warning(snapshot, now) == Some(InputWarningKind::Silence)
            &&& silent && now.nanos - since < engine.config.levels.silence_warn_after_ms
                * 1_000_000 ==> engine.warning(snapshot, now) is None
            &&& !silent && snapshot.clipping ==> engine.warning(snapshot, now) == Some(
                InputWarningKind::Clipping,
            )
            &&& !silent && !snapshot.clipping ==> engine.warning(snapshot, now)
                == if snapshot.rms_dbfs.below_spec(engine.config.levels.too_quiet_dbfs.value) {
                Some(InputWarningKind::TooQuiet)
            } else {
                None
            }
        }),
{
}

/// A look-back is measured in blocks of a fiftieth of a second, the last of them short or
/// whole, and at least a sample long.
pub proof fn law_a_lookback_is_measured_in_fiftieths(samples: int, sample_rate: u32)
    requires
        0 <= samples,
    ensures
        ({
            let block = block_length(sample_rate);
            let count = block_count(samples, sample_rate);
            &&& sample_rate < 50 ==> block == 1
            &&& sample_rate >= 50 ==> block * 50 <= sample_rate < (block + 1) * 50
            &&& block >= 1
            &&& samples <= count * block
            &&& samples > 0 ==> (count - 1) * block < samples
            &&& samples == 0 ==> count == 0
        }),
{
    let block = block_length(sample_rate);
    let padded = samples + block - 1;
    assert(block >= 1);
    vstd::arithmetic::div_mod::lemma_fundamental_div_mod(padded, block);
    let count = padded / block;
    let rest = padded % block;
    assert(0 <= rest < block);
    assert(count * block == padded - rest) by (nonlinear_arith)
        requires
            padded == block * count + rest,
    ;
    assert((count - 1) * block == count * block - block) by (nonlinear_arith);
    if samples == 0 {
        vstd::arithmetic::div_mod::lemma_basic_div(padded, block);
    }
}

/// Speech in the look-back is told in milliseconds of the blocks that reach the threshold:
/// one more level adds a block exactly when it does.
pub proof fn law_speech_is_counted_in_blocks(
    levels: Seq<Single>,
    level: Single,
    threshold: Single,
    sample_rate: u32,
)
    requires
        level.rank() is Some,
        threshold.rank() is Some,
        sample_rate > 0,
    ensures
        speaking(Seq::empty(), threshold) == 0,
        speaking(levels.push(level), threshold) == speaking(levels, threshold) + (if level.rank()->0
            >= threshold.rank()->0 {
            1nat
        } else {
            0
        }),
        ({
            let ms = speaking(levels, threshold) * block_length(sample_rate) * 1000
                / sample_rate as int;
            ms <= u32::MAX ==> speech_ms(speaking(levels, threshold), sample_rate) == ms
        }),
{
    assert(levels.push(level).drop_last() =~= levels);
    let blocks = speaking(levels, threshold);
    let block = block_length(sample_rate);
    assert(blocks * block * 1000 >= 0) by (nonlinear_arith)
        requires
            blocks >= 0,
            block >= 0,
    ;
    vstd::arithmetic::div_mod::lemma_div_pos_is_pos(blocks * block * 1000, sample_rate as int);
}

/// A session begins under an id of its own, with the look-back its profile asks for and
/// nothing else: the newest of what was captured in preroll mode, and none in any other.
pub proof fn law_a_session_begins_with_its_lookback(
    engine: EngineView,
    name: Seq<char>,
    levels: Seq<Single>,
    now: Moment,
    wall: Timestamp,
)
    requires
        engine.profile(name) is Some,
    ensures
        ({
            let profile = engine.profile(name)->0;
            let (after, actions) = engine.begin(name, levels, now, wall);
            let active = after.active->0;
            &&& after.active is Some
            &&& active.profile_name == name
            &&& active.profile == profile@
            &&& active.id == crate::session::id::id_text(wall, name, after.nonce)
            &&& active.recorder.phase == Phase::Recording
            &&& active.recorder.segments.len() == 0
            &&& active.recorder.continuations == 0
            &&& profile@.capture.mode == CaptureMode::Preroll ==> active.recorder.audio
                == engine.pre_roll.last_ms(profile@.capture.pre_roll_ms)
            &&& profile@.capture.mode != CaptureMode::Preroll ==> active.recorder.audio.len() == 0
            &&& active.recorder.settings.sample_rate == (match engine.device {
                Some(device) => device.sample_rate,
                None => engine.config.audio.sample_rate,
            })
            &&& engine.nonce < u32::MAX ==> after.nonce == engine.nonce + 1
            &&& engine.nonce == u32::MAX ==> after.nonce == 0
            &&& after.last_activity == now
            &&& after.silent_since is None
            &&& after.device == engine.device
        }),
{
    crate::audio::preroll::law_a_lookback_has_the_length_asked_for(engine.pre_roll, 0);
}

/// What a press leads to, for every state: an unknown profile, more of the session that is on,
/// the end of a session that is over or another's, the opening of a device, or a new session.
pub proof fn law_a_press_is_decided_by_what_is_on(engine: EngineView, name: Seq<char>, now: Moment)
    ensures
        ({
            let known = engine.profile(name) is Some;
            let on = engine.active is Some && ((engine.active->0).recorder.phase
                == Phase::Recording || ((engine.active->0).recorder.phase == Phase::Cooling && (
            engine.active->0).recorder.window_open(now)));
            let own = engine.active is Some && (engine.active->0).profile_name == name;
            let press = engine.press(name, now);
            &&& press is Unknown <==> !known
            &&& press is Proceed <==> known && own && on
            &&& press is Conclude <==> known && engine.active is Some && !(own && on)
            &&& press is Open <==> known && engine.active is None && engine.device is None
            &&& press is Begin <==> known && engine.active is None && engine.device is Some
            &&& press matches Press::Open { device, sample_rate } ==> device == (engine.profile(
                name,
            )->0).capture.device && sample_rate == engine.config.audio.sample_rate
        }),
{
}

/// The device stays open when a session ends, but for a profile that captures on demand.
pub proof fn law_only_on_demand_closes_the_device(
    engine: EngineView,
    profile: ProfileView,
    wall: Timestamp,
)
    ensures
        ({
            let (after, actions) = engine.after_recording(profile, wall);
            &&& profile.capture.mode != CaptureMode::OnDemand ==> after == engine && actions.len()
                == 0
            &&& profile.capture.mode == CaptureMode::OnDemand ==> after.device is None
            &&& profile.capture.mode == CaptureMode::OnDemand && engine.device is Some
                ==> actions.len() >= 1 && actions[0] == ActionView::ReleaseDevice
                && after.pre_roll.contents.len() == 0
        }),
{
}

/// A window is announced with its milliseconds when a release opens one, and not when it does
/// not; every stop is announced as it was.
pub proof fn law_a_stop_is_announced_with_its_window(
    engine: EngineView,
    id: Seq<char>,
    profile: Seq<char>,
    segment: u32,
    duration_ms: u64,
    reason: StopReason,
    cooldown_ms: u32,
    wall: Timestamp,
)
    requires
        engine.config.feedback.enabled,
        engine.config.feedback.listening,
    ensures
        ({
            let said = engine.announce(
                id,
                profile,
                Transition::Stopped { segment, duration_ms, reason, cooldown_ms },
                wall,
            );
            &&& said.len() == if cooldown_ms > 0 {
                2nat
            } else {
                1
            }
            &&& said[0] == ActionView::Emit(
                crate::event::session_line(
                    wall,
                    id,
                    profile,
                    EventView::RecordingStopped { segment, duration_ms, reason },
                ),
            )
            &&& cooldown_ms > 0 ==> said[1] == ActionView::Emit(
                crate::event::session_line(
                    wall,
                    id,
                    profile,
                    EventView::CooldownStarted { ms: cooldown_ms },
                ),
            )
        }),
{
}

/// Starting and continuing are announced with their segment and how far back or how late they
/// came, and the end of a window is not announced at all.
pub proof fn law_a_start_is_announced_as_it_was(
    engine: EngineView,
    id: Seq<char>,
    profile: Seq<char>,
    segment: u32,
    pre_roll_ms: u32,
    resumed_after_ms: u64,
    wall: Timestamp,
)
    requires
        engine.config.feedback.enabled,
        engine.config.feedback.listening,
    ensures
        engine.announce(id, profile, Transition::Started { segment, pre_roll_ms }, wall) == seq![
            ActionView::Emit(
                crate::event::session_line(
                    wall,
                    id,
                    profile,
                    EventView::RecordingStarted {
                        segment,
                        pre_roll_ms,
                        device: match engine.device {
                            Some(device) => device.name@,
                            None => "unknown"@,
                        },
                    },
                ),
            ),
        ],
        engine.announce(id, profile, Transition::Resumed { segment, resumed_after_ms }, wall)
            == seq![
            ActionView::Emit(
                crate::event::session_line(
                    wall,
                    id,
                    profile,
                    EventView::RecordingResumed { segment, resumed_after_ms },
                ),
            ),
        ],
        engine.announce(id, profile, Transition::Finalized, wall).len() == 0,
        engine.announce(id, profile, Transition::Nothing, wall).len() == 0,
{
}

/// A session is to be written out exactly when its window has passed: at every moment before,
/// advancing says that it is not.
pub proof fn law_a_session_is_over_when_its_window_has_passed(
    engine: EngineView,
    now: Moment,
    wall: Timestamp,
)
    requires
        engine.active is Some,
        (engine.active->0).recorder.phase == Phase::Cooling,
        (engine.active->0).recorder.stopped is Some,
        ((engine.active->0).recorder.stopped->0) <= now.nanos,
    ensures
        ({
            let recorder = (engine.active->0).recorder;
            let passed = now.nanos - (recorder.stopped->0) >= recorder.settings.cooldown_ms
                * 1_000_000;
            let (after, actions, over) = engine.advance(now, wall);
            &&& over == passed
            &&& actions.len() == 0
            &&& (after.active->0).recorder.audio == recorder.audio
            &&& (after.active->0).recorder.segments == recorder.segments
            &&& !passed ==> after == engine
        }),
{
}

/// What is going on is told by the milliseconds since the key went down, or until the window
/// closes.
pub proof fn law_activity_tells_the_time(engine: EngineView, now: Moment)
    requires
        engine.active is Some,
        (engine.active->0).recorder.wf(),
    ensures
        ({
            let recorder = (engine.active->0).recorder;
            &&& recorder.phase == Phase::Recording && (recorder.open->0).key_down.nanos
                <= now.nanos ==> (engine.activity(now) matches ActivityState::Recording {
                segment,
                elapsed_ms,
            } && segment == (recorder.open->0).index && elapsed_ms == (now.nanos - (
            recorder.open->0).key_down.nanos) / 1_000_000)
            &&& recorder.phase == Phase::Cooling && (recorder.stopped->0) <= now.nanos < (
            recorder.stopped->0) + recorder.settings.cooldown_ms * 1_000_000 ==> (engine.activity(
                now,
            ) matches ActivityState::Cooling { remaining_ms } && remaining_ms == (
            recorder.settings.cooldown_ms * 1_000_000 - (now.nanos - (recorder.stopped->0)))
                / 1_000_000)
            &&& recorder.phase == Phase::Idle ==> engine.activity(now) is Idle
        }),
{
}

/// A file is as long as its samples last at its own rate, and has a channel at least.
pub proof fn law_a_file_lasts_as_long_as_its_samples(recording: Recording)
    requires
        recording.target.sample_rate > 0,
    ensures
        recording.stored_ms() == recording.stored_samples() * 1000
            / recording.target.sample_rate as int,
        recording.target.channels > 0 ==> recording.stored_channels() == recording.target.channels,
        recording.target.channels == 0 ==> recording.stored_channels() == 1,
        recording.sample_rate == recording.target.sample_rate ==> recording.stored_samples()
            == recording.finished.audio@.len(),
        recording.sample_rate > 0 ==> recording.stored_samples() == recording.finished.audio@.len()
            * recording.target.sample_rate / recording.sample_rate as int,
{
    if recording.sample_rate == recording.target.sample_rate {
        law_matching_rates_keep_the_duration(recording);
    }
}

/// A device that was opened starts an empty look-back of the length its profile asks for, at
/// its own rate, and is announced as it is.
pub proof fn law_an_opened_device_starts_an_empty_lookback(
    engine: EngineView,
    profile: Profile,
    info: DeviceInfo,
    wall: Timestamp,
)
    ensures
        ({
            let (after, actions) = engine.opened(profile, info, wall);
            let wanted = if profile@.capture.mode == CaptureMode::Preroll {
                info.sample_rate * profile@.capture.pre_roll_ms / 1000
            } else {
                0
            };
            &&& after.device == Some(info)
            &&& after.pre_roll.contents.len() == 0
            &&& wanted <= usize::MAX ==> after.pre_roll.capacity == wanted
            &&& after.pre_roll.sample_rate == info.sample_rate
            &&& after.active == engine.active
            &&& actions == seq![
                ActionView::Emit(
                    crate::event::daemon_line(
                        wall,
                        EventView::DeviceOpened {
                            device: info.name@,
                            sample_rate: info.sample_rate,
                            channels: info.channels,
                        },
                    ),
                ),
            ]
        }),
{
    assert(info.sample_rate * 0 == 0) by (nonlinear_arith);
}

/// A release goes to the session of its profile alone and stops it there and then; what was
/// recorded stays.
pub proof fn law_a_release_stops_its_own_session(
    engine: EngineView,
    name: Seq<char>,
    now: Moment,
    wall: Timestamp,
)
    requires
        engine.active is Some,
        (engine.active->0).profile_name == name,
        (engine.active->0).recorder.phase == Phase::Recording,
    ensures
        ({
            let before = engine.active->0;
            let after = engine.stop(name, now, wall).0;
            &&& after.active is Some
            &&& (after.active->0).recorder.phase == Phase::Cooling
            &&& (after.active->0).recorder.audio == before.recorder.audio
            &&& (after.active->0).recorder.segments.len() == before.recorder.segments.len() + 1
            &&& (after.active->0).recorder.segments.last().stop_reason == StopReason::Released
            &&& (after.active->0).recorder.segments.last().key_up_at == Some(wall)
            &&& (after.active->0).id == before.id
            &&& (after.active->0).profile_name == name
            &&& after.last_activity == now
            &&& after.device == engine.device
            &&& after.pre_roll == engine.pre_roll
        }),
{
}

/// Pressing again inside the window goes on with the same session, without a look-back, and
/// counts silence afresh; pressing while recording changes nothing about it.
pub proof fn law_pressing_again_goes_on_with_the_session(
    engine: EngineView,
    now: Moment,
    wall: Timestamp,
)
    requires
        engine.active is Some,
        (engine.active->0).recorder.wf(),
        (engine.active->0).recorder.phase == Phase::Recording || ((
        engine.active->0).recorder.phase == Phase::Cooling
            && (engine.active->0).recorder.window_open(now)),
    ensures
        ({
            let before = engine.active->0;
            let (after, actions) = engine.proceed(now, wall);
            &&& after.active is Some
            &&& (after.active->0).recorder.phase == Phase::Recording
            &&& (after.active->0).id == before.id
            &&& (after.active->0).profile_name == before.profile_name
            &&& after.last_activity == now
            &&& before.recorder.phase == Phase::Recording ==> (after.active->0).recorder
                == before.recorder && actions.len() == 0 && after.silent_since
                == engine.silent_since
            &&& before.recorder.phase == Phase::Cooling ==> after.silent_since is None && (
            after.active->0).recorder.segments == before.recorder.segments && ((
            after.active->0).recorder.open->0).pre_roll_ms == 0
        }),
{
}

/// The record of a session says what was recorded, as it was: its profile and trigger, when it
/// began and ended, every segment, and the file that holds it.
pub proof fn law_a_record_says_what_was_recorded(
    handoff: Handoff,
    recording: Recording,
    path: Seq<char>,
    bytes: u64,
    wall: Timestamp,
)
    requires
        handoff.describes(recording, path, bytes, wall),
    ensures
        handoff.record.v == 1,
        handoff.record.id == recording.id,
        handoff.record.profile == recording.profile_name,
        handoff.record.trigger == recording.profile.trigger,
        handoff.record.started_at == recording.finished.started_at,
        handoff.record.finalized_at == Some(wall),
        handoff.record.segments == recording.finished.segments,
        handoff.record.continuations == recording.finished.continuations,
        handoff.record.capture == recording.finished.capture,
        handoff.record.levels == recording.finished.levels,
        handoff.record.audio.path@ == path,
        handoff.record.audio.bytes == bytes,
        handoff.record.audio.format == recording.target.format,
        handoff.record.audio.sample_rate == recording.target.sample_rate,
        handoff.record.audio.channels == recording.stored_channels(),
        handoff.record.audio.duration_ms == recording.stored_ms(),
        handoff.record.transcript is None,
        handoff.record.sinks@.len() == 0,
        handoff.record.outcome == Outcome::Okay,
        handoff.profile == recording.profile,
        handoff.profile_name == recording.profile_name,
{
}

} // verus!
