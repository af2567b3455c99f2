//! What happens after the recording is written: transcription, then the callbacks.
//!
//! Transcribers and callbacks do their work elsewhere; what is planned, announced, recorded
//! and concluded from it is decided here. The event sequence is the contract an indicator is
//! built against: the complete plan first, then each row resolving independently, then a
//! self-contained summary.

use vstd::prelude::*;

use crate::clock::Timestamp;
use crate::config::{Config, OnError, Profile, RetryConfig};
use crate::event::{Envelope, Event, EventView, PlannedSink, PlannedSinkView, Stage};
use crate::feedback::Filter;
use crate::names::Named;
use crate::paths::{join, parent};
use crate::recorder::count_u32;
use crate::session::{
    Outcome, SessionId, SessionRecord, SinkOutcome, SinkRecord, SkipReason, TranscriptRecord,
};
use crate::text::{chars_of, concat3, contains_name, quote};

verus! {

/// What a callback that was built says of itself.
#[derive(Debug, Clone, PartialEq, Eq)]
pub struct SinkFace {
    /// The sink's `type`.
    pub kind: String,
    /// Whether it is skipped when there is no transcript.
    pub requires_text: bool,
}

/// A callback that is about to run.
#[derive(Debug, Clone, PartialEq, Eq)]
pub struct Run {
    /// Position in the fan-out.
    pub id: u32,
    pub name: String,
    /// The sink's `type`.
    pub kind: String,
    /// Whether it is skipped when there is no transcript.
    pub requires_text: bool,
    pub on_error: OnError,
    pub retry: RetryConfig,
}

/// What is known of a callback that is about to run.
pub struct RunView {
    pub id: u32,
    pub name: Seq<char>,
    pub kind: Seq<char>,
    pub requires_text: bool,
    pub on_error: OnError,
    pub retry: RetryConfig,
}

impl View for Run {
    type V = RunView;

    open spec fn view(&self) -> RunView {
        RunView {
            id: self.id,
            name: self.name@,
            kind: self.kind@,
            requires_text: self.requires_text,
            on_error: self.on_error,
            retry: self.retry,
        }
    }
}

/// The rows of the plan for the named callbacks: one for each that was built, under its
/// position in the list.
pub open spec fn rows(names: Seq<String>, built: Seq<(String, SinkFace)>) -> Seq<PlannedSinkView>
    decreases names.len(),
{
    if names.len() == 0 {
        Seq::empty()
    } else {
        let before = rows(names.drop_last(), built);
        let name = names.last()@;
        match crate::names::lookup(built, name) {
            Some(face) => before.push(
                PlannedSinkView {
                    id: crate::recorder::as_count((names.len() - 1) as nat),
                    name,
                    kind: face.kind@,
                    requires_text: face.requires_text,
                },
            ),
            None => before,
        }
    }
}

/// The callbacks that run: one for each that was built and is configured, under its position
/// in the list.
pub open spec fn runs(
    names: Seq<String>,
    built: Seq<(String, SinkFace)>,
    configured: Seq<(String, crate::config::SinkConfig)>,
) -> Seq<RunView>
    decreases names.len(),
{
    if names.len() == 0 {
        Seq::empty()
    } else {
        let before = runs(names.drop_last(), built, configured);
        let name = names.last()@;
        match (crate::names::lookup(built, name), crate::names::lookup(configured, name)) {
            (Some(face), Some(config)) => before.push(
                RunView {
                    id: crate::recorder::as_count((names.len() - 1) as nat),
                    name,
                    kind: face.kind@,
                    requires_text: face.requires_text,
                    on_error: config.on_error,
                    retry: config.retry,
                },
            ),
            _ => before,
        }
    }
}

/// What the callbacks of a list say.
pub open spec fn runs_of(list: Seq<Run>) -> Seq<RunView> {
    list.map_values(|run: Run| run@)
}

/// Everything that runs was announced: each callback that runs has a row in the plan, under
/// the same position and name.
pub proof fn law_everything_that_runs_was_announced(
    names: Seq<String>,
    built: Seq<(String, SinkFace)>,
    configured: Seq<(String, crate::config::SinkConfig)>,
    i: int,
) -> (j: int)
    requires
        0 <= i < runs(names, built, configured).len(),
    ensures
        0 <= j < rows(names, built).len(),
        rows(names, built)[j].id == runs(names, built, configured)[i].id,
        rows(names, built)[j].name == runs(names, built, configured)[i].name,
    decreases names.len(),
{
    let shorter = names.drop_last();
    if i < runs(shorter, built, configured).len() {
        law_everything_that_runs_was_announced(shorter, built, configured, i)
    } else {
        rows(names, built).len() - 1
    }
}

/// Callbacks that run are told apart by their position, even when the same one is listed
/// twice.
pub proof fn lemma_runs_ascend(
    names: Seq<String>,
    built: Seq<(String, SinkFace)>,
    configured: Seq<(String, crate::config::SinkConfig)>,
)
    requires
        names.len() <= u32::MAX,
    ensures
        forall|i: int|
            #![trigger runs(names, built, configured)[i]]
            0 <= i < runs(names, built, configured).len() ==> runs(names, built, configured)[i].id
                < names.len(),
        forall|i: int, j: int|
            #![trigger runs(names, built, configured)[i], runs(names, built, configured)[j]]
            0 <= i < j < runs(names, built, configured).len() ==> runs(
                names,
                built,
                configured,
            )[i].id < runs(names, built, configured)[j].id,
    decreases names.len(),
{
    if names.len() > 0 {
        lemma_runs_ascend(names.drop_last(), built, configured);
    }
}

/// When every callback of a profile was built and is configured, all of them are planned, all
/// of them run, and their positions are 0, 1, and so on.
pub proof fn lemma_all_run(
    names: Seq<String>,
    built: Seq<(String, SinkFace)>,
    configured: Seq<(String, crate::config::SinkConfig)>,
)
    requires
        names.len() <= u32::MAX,
        forall|i: int|
            0 <= i < names.len() ==> crate::names::lookup(built, (#[trigger] names[i])@) is Some
                && crate::names::lookup(configured, names[i]@) is Some,
    ensures
        rows(names, built).len() == names.len(),
        runs(names, built, configured).len() == names.len(),
        forall|i: int|
            #![trigger rows(names, built)[i]]
            0 <= i < names.len() ==> rows(names, built)[i].id == i && rows(names, built)[i].name
                == names[i]@,
        forall|i: int|
            #![trigger runs(names, built, configured)[i]]
            0 <= i < names.len() ==> runs(names, built, configured)[i].id == i,
    decreases names.len(),
{
    if names.len() > 0 {
        let shorter = names.drop_last();
        assert(forall|i: int| 0 <= i < shorter.len() ==> shorter[i] == names[i]);
        lemma_all_run(shorter, built, configured);
        assert(names[names.len() - 1] == names.last());
    }
}

/// Rows are told apart by their position, even when the same callback is listed twice.
pub proof fn law_rows_are_told_apart(names: Seq<String>, built: Seq<(String, SinkFace)>, i: int, j: int)
    requires
        names.len() <= u32::MAX,
        0 <= i < j < rows(names, built).len(),
    ensures
        rows(names, built)[i].id < rows(names, built)[j].id,
        rows(names, built)[j].id < names.len(),
    decreases names.len(),
{
    let shorter = names.drop_last();
    if j < rows(shorter, built).len() {
        law_rows_are_told_apart(shorter, built, i, j);
    } else {
        lemma_row_positions(shorter, built, i);
    }
}

proof fn lemma_row_positions(names: Seq<String>, built: Seq<(String, SinkFace)>, i: int)
    requires
        names.len() <= u32::MAX,
        0 <= i < rows(names, built).len(),
    ensures
        rows(names, built)[i].id < names.len(),
    decreases names.len(),
{
    let shorter = names.drop_last();
    if i < rows(shorter, built).len() {
        lemma_row_positions(shorter, built, i);
    }
}

/// The complete list of callbacks, announced before any of them run.
///
/// A progress panel has to be drawn in full and greyed out first; a list that grows while the
/// user watches it is worse than no list.
pub fn plan(names: &Vec<String>, built: &Named<SinkFace>) -> (result: Vec<PlannedSink>)
    ensures
        crate::event::planned(result@) == rows(names@, built@),
{
    let mut out: Vec<PlannedSink> = Vec::new();
    let mut i: usize = 0;
    assert(crate::event::planned(out@) =~= rows(names@.take(0), built@));
    while i < names.len()
        invariant
            i <= names.len(),
            crate::event::planned(out@) == rows(names@.take(i as int), built@),
        decreases names.len() - i,
    {
        let ghost before = out@;
        assert(names@.take(i + 1).drop_last() =~= names@.take(i as int));
        assert(names@.take(i + 1).last() == names@[i as int]);
        match built.get(names[i].as_str()) {
            Some(face) => {
                let row = PlannedSink {
                    id: count_u32(i),
                    name: names[i].clone(),
                    kind: face.kind.clone(),
                    requires_text: face.requires_text,
                };
                out.push(row);
                assert(crate::event::planned(out@) =~= crate::event::planned(before).push(row@));
            },
            None => {},
        }
        i += 1;
    }
    assert(names@.take(i as int) =~= names@);
    out
}

/// The callbacks to run, in order.
pub fn build_plan(names: &Vec<String>, built: &Named<SinkFace>, config: &Config) -> (result: Vec<
    Run,
>)
    ensures
        runs_of(result@) == runs(names@, built@, config.sinks@),
{
    let mut out: Vec<Run> = Vec::new();
    let mut i: usize = 0;
    assert(runs_of(out@) =~= runs(names@.take(0), built@, config.sinks@));
    while i < names.len()
        invariant
            i <= names.len(),
            runs_of(out@) == runs(names@.take(i as int), built@, config.sinks@),
        decreases names.len() - i,
    {
        let ghost before = out@;
        assert(names@.take(i + 1).drop_last() =~= names@.take(i as int));
        assert(names@.take(i + 1).last() == names@[i as int]);
        match (built.get(names[i].as_str()), config.sinks.get(names[i].as_str())) {
            (Some(face), Some(sink)) => {
                let run = Run {
                    id: count_u32(i),
                    name: names[i].clone(),
                    kind: face.kind.clone(),
                    requires_text: face.requires_text,
                    on_error: sink.on_error,
                    retry: sink.retry,
                };
                out.push(run);
                assert(runs_of(out@) =~= runs_of(before).push(run@));
            },
            _ => {},
        }
        i += 1;
    }
    assert(names@.take(i as int) =~= names@);
    out
}

/// What a transcriber is asked to do.
#[derive(Debug, Clone, PartialEq, Eq)]
pub struct TranscribeRequest {
    pub audio_path: String,
    pub session_dir: String,
    pub session_id: SessionId,
    pub profile: String,
    pub sample_rate: u32,
    pub duration_ms: u64,
}

/// What a transcriber came back with.
#[derive(Debug, Clone, PartialEq, Eq)]
pub struct Transcript {
    pub text: String,
    pub language: Option<String>,
}

/// What a profile's transcription calls for.
#[derive(Debug)]
pub enum TranscriptionPlan {
    /// The profile has no transcriber. Not a failure: a profile that records straight to a
    /// callback is a first-class case.
    NotAsked,
    /// The transcriber is configured but could not be built.
    NotBuilt { transcriber: String },
    /// The transcriber is to be run, under this retry policy.
    Ask { transcriber: String, request: TranscribeRequest, retry: RetryConfig },
}

/// The directory a session's files are in.
pub open spec fn directory_of(audio_path: Seq<char>) -> Seq<char> {
    match crate::paths::parent_path(audio_path) {
        Some(directory) => directory,
        None => ""@,
    }
}

/// The retry policy of a transcriber.
pub open spec fn retry_of(config: Config, transcriber: Seq<char>) -> RetryConfig {
    match crate::names::lookup(config.transcribers@, transcriber) {
        Some(entry) => entry.retry,
        None => RetryConfig { attempts: 1, backoff_ms: 500 },
    }
}

/// What transcribing a session calls for, given the names of the transcribers that could be
/// built.
pub fn plan_transcription(
    record: &SessionRecord,
    profile_name: &str,
    profile: &Profile,
    built: &Vec<String>,
    config: &Config,
) -> (result: TranscriptionPlan)
    ensures
        match profile.transcriber {
            None => result is NotAsked,
            Some(name) => if !crate::text::texts(built@).contains(name@) {
                result == (TranscriptionPlan::NotBuilt { transcriber: name })
            } else {
                &&& result matches TranscriptionPlan::Ask { transcriber, request, retry }
                &&& transcriber == name
                &&& request.audio_path == record.audio.path
                &&& request.session_dir@ == directory_of(record.audio.path@)
                &&& request.session_id == record.id
                &&& request.profile@ == profile_name@
                &&& request.sample_rate == record.audio.sample_rate
                &&& request.duration_ms == record.audio.duration_ms
                &&& retry == retry_of(*config, name@)
            },
        },
        forall|session_dir: Seq<char>| #[trigger]
            crate::storage::audio_of(session_dir) == record.audio.path@
                && crate::paths::ends_plainly(session_dir) && result is Ask ==> (
            result->request).session_dir@ == session_dir,
{
    proof {
        crate::storage::lemma_audio_is_a_file_name();
    }
    match &profile.transcriber {
        None => TranscriptionPlan::NotAsked,
        Some(name) => {
            if !contains_name(built, name.as_str()) {
                return TranscriptionPlan::NotBuilt { transcriber: name.clone() };
            }
            let session_dir = match parent(record.audio.path.as_str()) {
                Some(directory) => directory,
                None => "".to_owned(),
            };
            let retry = match config.transcribers.get(name.as_str()) {
                Some(entry) => entry.retry,
                None => RetryConfig::default(),
            };
            TranscriptionPlan::Ask {
                transcriber: name.clone(),
                request: TranscribeRequest {
                    audio_path: record.audio.path.clone(),
                    session_dir,
                    session_id: record.id.clone(),
                    profile: profile_name.to_owned(),
                    sample_rate: record.audio.sample_rate,
                    duration_ms: record.audio.duration_ms,
                },
                retry,
            }
        },
    }
}

/// How transcription ended.
#[derive(Debug)]
pub enum Transcription {
    NotAsked,
    NotBuilt { transcriber: String },
    Done { transcriber: String, transcript: Transcript, latency_ms: u64 },
    Failed { transcriber: String, error: String, latency_ms: u64 },
}

/// What a transcriber that could not be built is reported as.
pub open spec fn not_built_text(transcriber: Seq<char>) -> Seq<char> {
    "transcriber "@ + crate::text::quoted(transcriber) + " could not be built"@
}

impl Transcription {
    /// Whether transcription was asked for and produced nothing.
    pub open spec fn failed(self) -> bool {
        self is NotBuilt || self is Failed
    }

    /// What went wrong, if anything did.
    pub open spec fn error(self) -> Option<Seq<char>> {
        match self {
            Transcription::NotBuilt { transcriber } => Some(not_built_text(transcriber@)),
            Transcription::Failed { error, .. } => Some(error@),
            _ => None,
        }
    }

    /// What the end of transcription is announced as.
    pub open spec fn announced(self) -> Seq<EventView> {
        match self {
            Transcription::NotAsked => Seq::empty(),
            Transcription::NotBuilt { transcriber } => seq![
                EventView::TranscribeFailed {
                    error: not_built_text(transcriber@),
                    latency_ms: 0,
                },
            ],
            Transcription::Done { transcript, latency_ms, .. } => seq![
                EventView::TranscribeDone {
                    chars: transcript.text@.len() as usize,
                    latency_ms,
                    language: crate::event::optional(transcript.language),
                },
            ],
            Transcription::Failed { error, latency_ms, .. } => seq![
                EventView::TranscribeFailed { error: error@, latency_ms },
                EventView::Error { stage: Stage::Transcription, message: error@ },
            ],
        }
    }

    /// Why a callback that needs text has none, when it has none.
    ///
    /// An empty transcript is a real answer, since a recording of silence has no text in it,
    /// but a callback expecting text still has nothing to work with.
    pub open spec fn skip(self) -> Option<SkipReason> {
        match self {
            Transcription::NotAsked => Some(SkipReason::NoTranscript),
            Transcription::NotBuilt { .. } => Some(SkipReason::TranscriptionFailed),
            Transcription::Failed { .. } => Some(SkipReason::TranscriptionFailed),
            Transcription::Done { transcript, .. } => if transcript.text@.len() == 0 {
                Some(SkipReason::NoTranscript)
            } else {
                None
            },
        }
    }

    /// The events that announce how transcription ended.
    pub fn events(&self) -> (result: Vec<Event>)
        ensures
            events_of(result@) == self.announced(),
    {
        let mut out: Vec<Event> = Vec::new();
        match self {
            Transcription::NotAsked => {},
            Transcription::NotBuilt { transcriber } => {
                out.push(
                    Event::TranscribeFailed {
                        error: not_built(transcriber.as_str()),
                        latency_ms: 0,
                    },
                );
            },
            Transcription::Done { transcript, latency_ms, .. } => {
                out.push(
                    Event::TranscribeDone {
                        chars: chars_of(transcript.text.as_str()).len(),
                        latency_ms: *latency_ms,
                        language: transcript.language.clone(),
                    },
                );
            },
            Transcription::Failed { error, latency_ms, .. } => {
                out.push(
                    Event::TranscribeFailed { error: error.clone(), latency_ms: *latency_ms },
                );
                out.push(
                    Event::Error { stage: Stage::Transcription, message: error.clone() },
                );
            },
        }
        assert(events_of(out@) =~= self.announced());
        out
    }

    /// Why a callback that needs text has none, when it has none.
    pub fn skip_reason(&self) -> (result: Option<SkipReason>)
        ensures
            result == self.skip(),
    {
        match self {
            Transcription::NotAsked => Some(SkipReason::NoTranscript),
            Transcription::NotBuilt { .. } => Some(SkipReason::TranscriptionFailed),
            Transcription::Failed { .. } => Some(SkipReason::TranscriptionFailed),
            Transcription::Done { transcript, .. } => {
                if chars_of(transcript.text.as_str()).len() == 0 {
                    Some(SkipReason::NoTranscript)
                } else {
                    None
                }
            },
        }
    }

    /// Where the transcript is written, beside the audio, so that a callback can be handed a
    /// path rather than a shell-quoted blob of the user's speech. Nowhere, when there is no
    /// text.
    pub fn transcript_path(&self, audio_path: &str) -> (result: Option<String>)
        ensures
            match result {
                Some(path) => {
                    &&& self matches Transcription::Done { transcript, .. }
                    &&& transcript.text@.len() > 0
                    &&& crate::paths::parent_path(audio_path@) matches Some(directory)
                    &&& path@ == crate::paths::below(directory, "transcript.txt"@)
                },
                None => self matches Transcription::Done { transcript, .. } ==> (
                transcript.text@.len() == 0 || crate::paths::parent_path(audio_path@) is None),
            },
            forall|session_dir: Seq<char>| #[trigger]
                crate::storage::audio_of(session_dir) == audio_path@ && crate::paths::ends_plainly(
                    session_dir,
                ) && self.skip() is None ==> crate::event::optional(result) == Some(
                    crate::paths::below(session_dir, "transcript.txt"@),
                ),
    {
        proof {
            crate::storage::lemma_audio_is_a_file_name();
        }
        match self {
            Transcription::Done { transcript, .. } => {
                if chars_of(transcript.text.as_str()).len() == 0 {
                    return None;
                }
                match parent(audio_path) {
                    Some(directory) => Some(join(directory.as_str(), "transcript.txt")),
                    None => None,
                }
            },
            _ => None,
        }
    }

    /// Whether this is what is recorded of transcription: its result, or what went wrong, and
    /// how long either took. `path` is where the transcript was written, if it was.
    pub open spec fn recorded(self, path: Option<String>, result: Option<TranscriptRecord>) -> bool {
        match self {
            Transcription::NotAsked => result is None,
            Transcription::NotBuilt { transcriber } => {
                &&& result matches Some(record)
                &&& record.transcriber == transcriber
                &&& record.path is None
                &&& record.chars == 0
                &&& record.latency_ms == 0
                &&& record.language is None
                &&& crate::event::optional(record.error) == self.error()
            },
            Transcription::Done { transcriber, transcript, latency_ms } => {
                &&& result matches Some(record)
                &&& record.transcriber == transcriber
                &&& record.path == path
                &&& record.chars == transcript.text@.len()
                &&& record.latency_ms == latency_ms
                &&& crate::event::optional(record.language) == crate::event::optional(
                    transcript.language,
                )
                &&& record.error is None
            },
            Transcription::Failed { transcriber, latency_ms, .. } => {
                &&& result matches Some(record)
                &&& record.transcriber == transcriber
                &&& record.path is None
                &&& record.chars == 0
                &&& record.latency_ms == latency_ms
                &&& record.language is None
                &&& crate::event::optional(record.error) == self.error()
            },
        }
    }

    /// What is recorded of transcription.
    pub fn record(&self, path: Option<String>) -> (result: Option<TranscriptRecord>)
        ensures
            self.recorded(path, result),
    {
        match self {
            Transcription::NotAsked => None,
            Transcription::NotBuilt { transcriber } => Some(
                TranscriptRecord {
                    transcriber: transcriber.clone(),
                    path: None,
                    chars: 0,
                    latency_ms: 0,
                    language: None,
                    error: Some(not_built(transcriber.as_str())),
                },
            ),
            Transcription::Done { transcriber, transcript, latency_ms } => Some(
                TranscriptRecord {
                    transcriber: transcriber.clone(),
                    path,
                    chars: chars_of(transcript.text.as_str()).len(),
                    latency_ms: *latency_ms,
                    language: transcript.language.clone(),
                    error: None,
                },
            ),
            Transcription::Failed { transcriber, error, latency_ms } => Some(
                TranscriptRecord {
                    transcriber: transcriber.clone(),
                    path: None,
                    chars: 0,
                    latency_ms: *latency_ms,
                    language: None,
                    error: Some(error.clone()),
                },
            ),
        }
    }
}

fn not_built(transcriber: &str) -> (result: String)
    ensures
        result@ == not_built_text(transcriber@),
{
    concat3("transcriber ", quote(transcriber).as_str(), " could not be built")
}

/// What a list of events says.
pub open spec fn events_of(events: Seq<Event>) -> Seq<EventView> {
    events.map_values(|event: Event| event@)
}

/// A transcription that failed says so in three places at once: in the event stream, in the
/// session record, and to every callback that is skipped for it. None of them can be out of
/// step with the others.
pub proof fn law_a_failed_transcription_is_reported_everywhere(transcription: Transcription)
    ensures
        transcription.failed() == (transcription.error() is Some),
        transcription.failed() == (transcription.skip() == Some(SkipReason::TranscriptionFailed)),
        transcription.failed() == (exists|i: int|
            0 <= i < transcription.announced().len() && #[trigger] transcription.announced()[i] is TranscribeFailed),
        transcription.failed() ==> (transcription.announced()[0] matches EventView::TranscribeFailed {
            error,
            ..
        } && Some(error) == transcription.error()),
{
    let announced = transcription.announced();
    if transcription.failed() {
        assert(announced[0] is TranscribeFailed);
    } else {
        assert forall|i: int| 0 <= i < announced.len() implies !(
        #[trigger] announced[i] is TranscribeFailed) by {}
    }
}

/// Something a callback did while the fan-out ran.
#[derive(Debug)]
pub enum Progress {
    Started { id: u32, name: String },
    Finished { record: SinkRecord },
}

impl Progress {
    /// The event that announces it.
    pub open spec fn announced(self) -> EventView {
        match self {
            Progress::Started { id, name } => EventView::SinkStarted { id, name: name@ },
            Progress::Finished { record } => EventView::SinkFinished {
                id: record.id,
                name: record.name@,
                outcome: record.outcome@,
                latency_ms: record.latency_ms,
                attempts: record.attempts,
            },
        }
    }

    /// The event that announces it.
    pub fn event(self) -> (result: Event)
        ensures
            result@ == self.announced(),
    {
        match self {
            Progress::Started { id, name } => Event::SinkStarted { id, name },
            Progress::Finished { record } => Event::SinkFinished {
                id: record.id,
                name: record.name,
                outcome: record.outcome,
                latency_ms: record.latency_ms,
                attempts: record.attempts,
            },
        }
    }
}

/// How many callbacks came out right.
pub open spec fn succeeded(records: Seq<SinkRecord>) -> nat {
    crate::lists::count(records, |record: SinkRecord| record.outcome is Okay)
}

/// How many callbacks failed.
pub open spec fn failures(records: Seq<SinkRecord>) -> nat {
    crate::lists::count(records, |record: SinkRecord| record.outcome is Failed)
}

/// How many callbacks did not run.
pub open spec fn omitted(records: Seq<SinkRecord>) -> nat {
    crate::lists::count(records, |record: SinkRecord| record.outcome is Skipped)
}

/// How many callbacks came out right, failed and were skipped.
pub fn tally(records: &Vec<SinkRecord>) -> (result: (usize, usize, usize))
    ensures
        result.0 == succeeded(records@),
        result.1 == failures(records@),
        result.2 == omitted(records@),
        result.0 + result.1 + result.2 == records@.len(),
{
    let ghost good = |record: SinkRecord| record.outcome is Okay;
    let ghost bad = |record: SinkRecord| record.outcome is Failed;
    let ghost left = |record: SinkRecord| record.outcome is Skipped;
    let mut ok: usize = 0;
    let mut failed: usize = 0;
    let mut skipped: usize = 0;
    let mut i: usize = 0;
    while i < records.len()
        invariant
            i <= records.len(),
            good == (|record: SinkRecord| record.outcome is Okay),
            bad == (|record: SinkRecord| record.outcome is Failed),
            left == (|record: SinkRecord| record.outcome is Skipped),
            ok == crate::lists::count(records@.take(i as int), good),
            failed == crate::lists::count(records@.take(i as int), bad),
            skipped == crate::lists::count(records@.take(i as int), left),
            ok + failed + skipped == i,
        decreases records.len() - i,
    {
        proof {
            crate::lists::lemma_count_one_more(records@, good, i as int);
            crate::lists::lemma_count_one_more(records@, bad, i as int);
            crate::lists::lemma_count_one_more(records@, left, i as int);
        }
        match &records[i].outcome {
            SinkOutcome::Okay => {
                ok += 1;
            },
            SinkOutcome::Failed { .. } => {
                failed += 1;
            },
            SinkOutcome::Skipped { .. } => {
                skipped += 1;
            },
        }
        i += 1;
    }
    assert(records@.take(i as int) =~= records@);
    (ok, failed, skipped)
}

/// Whether the callback at position `id` is one whose failure fails the session.
pub open spec fn decisive(list: Seq<Run>, id: u32) -> bool {
    exists|i: int|
        0 <= i < list.len() && #[trigger] list[i].id == id && list[i].on_error
            == OnError::FailSession
}

/// Whether a callback failed whose success was the point of the profile.
pub open spec fn session_failed(records: Seq<SinkRecord>, list: Seq<Run>) -> bool {
    exists|i: int|
        0 <= i < records.len() && (#[trigger] records[i]).outcome is Failed && decisive(
            list,
            records[i].id,
        )
}

/// How a session ended, from what its callbacks and its transcription did.
///
/// "Partial" means the audio was captured but something downstream did not work: a failed
/// callback, or a transcription that did not produce text. A callback configured with
/// `on_error = "fail_session"` takes the whole session with it.
pub open spec fn outcome_of(
    records: Seq<SinkRecord>,
    list: Seq<Run>,
    transcript: Option<TranscriptRecord>,
) -> Outcome {
    if session_failed(records, list) {
        Outcome::Failed
    } else if failures(records) > 0 || (transcript matches Some(record) && record.error is Some) {
        Outcome::Partial
    } else {
        Outcome::Okay
    }
}

fn is_decisive(list: &Vec<Run>, id: u32) -> (result: bool)
    ensures
        result == decisive(list@, id),
{
    let mut i: usize = 0;
    while i < list.len()
        invariant
            i <= list.len(),
            forall|j: int|
                0 <= j < i ==> !(#[trigger] list@[j].id == id && list@[j].on_error
                    == OnError::FailSession),
        decreases list.len() - i,
    {
        if list[i].id == id && list[i].on_error == OnError::FailSession {
            assert(list@[i as int].id == id);
            return true;
        }
        i += 1;
    }
    false
}

fn any_decisive_failure(records: &Vec<SinkRecord>, list: &Vec<Run>) -> (result: bool)
    ensures
        result == session_failed(records@, list@),
{
    let mut i: usize = 0;
    while i < records.len()
        invariant
            i <= records.len(),
            forall|j: int|
                0 <= j < i ==> !((#[trigger] records@[j]).outcome is Failed && decisive(
                    list@,
                    records@[j].id,
                )),
        decreases records.len() - i,
    {
        let failed = match &records[i].outcome {
            SinkOutcome::Failed { .. } => true,
            _ => false,
        };
        if failed && is_decisive(list, records[i].id) {
            assert(records@[i as int].outcome is Failed);
            return true;
        }
        i += 1;
    }
    false
}

/// Completes the record of a session, now that the callbacks have all resolved, and sums it
/// up for the event stream.
pub fn complete(record: SessionRecord, records: Vec<SinkRecord>, list: &Vec<Run>, total_ms: u64)
    -> (result: (SessionRecord, Event))
    ensures
        result.0 == (SessionRecord {
            sinks: records,
            outcome: outcome_of(records@, list@, record.transcript),
            ..record
        }),
        result.1@ == (EventView::PipelineFinished {
            ok: succeeded(records@) as usize,
            failed: failures(records@) as usize,
            skipped: omitted(records@) as usize,
            total_ms,
            outcome: outcome_of(records@, list@, record.transcript),
        }),
        succeeded(records@) + failures(records@) + omitted(records@) == records@.len(),
        records@.len() <= usize::MAX,
{
    let (ok, failed, skipped) = tally(&records);
    assert(records@.len() == records.len());
    let transcription_failed = match &record.transcript {
        Some(transcript) => transcript.error.is_some(),
        None => false,
    };
    let outcome = if any_decisive_failure(&records, list) {
        Outcome::Failed
    } else if failed > 0 || transcription_failed {
        Outcome::Partial
    } else {
        Outcome::Okay
    };
    let mut record = record;
    record.sinks = records;
    record.outcome = outcome;
    (record, Event::PipelineFinished { ok, failed, skipped, total_ms, outcome })
}

/// A session is fine exactly when nothing downstream went wrong.
pub proof fn law_okay_means_nothing_went_wrong(
    records: Seq<SinkRecord>,
    list: Seq<Run>,
    transcript: Option<TranscriptRecord>,
)
    ensures
        outcome_of(records, list, transcript) == Outcome::Okay <==> {
            &&& forall|i: int|
                0 <= i < records.len() ==> !((#[trigger] records[i]).outcome is Failed)
            &&& transcript matches Some(record) ==> record.error is None
        },
{
    lemma_no_failures(records);
}

/// Every callback is counted once, as it ended: one more record adds one to exactly the
/// count of its own ending.
pub proof fn law_each_callback_is_counted_as_it_ended(
    records: Seq<SinkRecord>,
    record: SinkRecord,
)
    ensures
        succeeded(Seq::empty()) == 0 && failures(Seq::empty()) == 0 && omitted(Seq::empty()) == 0,
        record.outcome is Okay ==> succeeded(records.push(record)) == succeeded(records) + 1
            && failures(records.push(record)) == failures(records) && omitted(
            records.push(record),
        ) == omitted(records),
        record.outcome is Failed ==> succeeded(records.push(record)) == succeeded(records)
            && failures(records.push(record)) == failures(records) + 1 && omitted(
            records.push(record),
        ) == omitted(records),
        record.outcome is Skipped ==> succeeded(records.push(record)) == succeeded(records)
            && failures(records.push(record)) == failures(records) && omitted(
            records.push(record),
        ) == omitted(records) + 1,
{
    assert(records.push(record).drop_last() =~= records);
}

/// A session fails exactly when a callback failed that was to fail the session. Any other
/// failure, of a callback or of transcription, leaves it partial. A callback that was skipped
/// does it no harm.
pub proof fn law_a_session_fails_by_a_decisive_failure_alone(
    records: Seq<SinkRecord>,
    list: Seq<Run>,
    transcript: Option<TranscriptRecord>,
)
    ensures
        ({
            let outcome = outcome_of(records, list, transcript);
            let spoiled = exists|i: int, j: int|
                #![trigger records[i], list[j]]
                0 <= i < records.len() && 0 <= j < list.len() && records[i].outcome is Failed
                    && list[j].id == records[i].id && list[j].on_error == OnError::FailSession;
            let troubled = (exists|i: int|
                0 <= i < records.len() && (#[trigger] records[i]).outcome is Failed) || (
            transcript matches Some(record) && record.error is Some);
            &&& outcome == Outcome::Failed <==> spoiled
            &&& outcome == Outcome::Partial <==> troubled && !spoiled
            &&& outcome == Outcome::Okay <==> !troubled
        }),
{
    lemma_no_failures(records);
    if session_failed(records, list) {
        let i = choose|i: int|
            0 <= i < records.len() && (#[trigger] records[i]).outcome is Failed && decisive(
                list,
                records[i].id,
            );
        let j = choose|j: int|
            0 <= j < list.len() && #[trigger] list[j].id == records[i].id && list[j].on_error
                == OnError::FailSession;
        assert(records[i].outcome is Failed && list[j].id == records[i].id);
    } else {
        assert forall|i: int, j: int|
            #![trigger records[i], list[j]]
            0 <= i < records.len() && 0 <= j < list.len() && records[i].outcome is Failed
                && list[j].id == records[i].id implies list[j].on_error
            != OnError::FailSession by {
            assert(!decisive(list, records[i].id));
        }
    }
}

/// What each end of transcription is announced as, and what it leaves a callback that needs
/// text.
pub proof fn law_transcription_is_announced_as_it_ended(transcription: Transcription)
    ensures
        transcription is NotAsked ==> transcription.announced().len() == 0 && transcription.skip()
            == Some(SkipReason::NoTranscript),
        transcription matches Transcription::NotBuilt { transcriber } ==> {
            &&& transcription.announced().len() == 1
            &&& transcription.announced()[0] == (EventView::TranscribeFailed {
                error: "transcriber "@ + crate::text::quoted(transcriber@)
                    + " could not be built"@,
                latency_ms: 0,
            })
            &&& transcription.skip() == Some(SkipReason::TranscriptionFailed)
        },
        transcription matches Transcription::Done { transcript, latency_ms, .. } ==> {
            &&& transcription.announced().len() == 1
            &&& transcription.announced()[0] matches EventView::TranscribeDone {
                chars,
                latency_ms: took,
                language,
            } && chars == transcript.text@.len() as usize && took == latency_ms && (
            transcript.language is Some) == (language is Some) && (
            transcript.language matches Some(spoken) ==> language == Some(spoken@))
            &&& transcription.skip() is None <==> transcript.text@.len() > 0
            &&& transcript.text@.len() == 0 ==> transcription.skip() == Some(
                SkipReason::NoTranscript,
            )
        },
        transcription matches Transcription::Failed { error, latency_ms, .. } ==> {
            &&& transcription.announced() == seq![
                EventView::TranscribeFailed { error: error@, latency_ms },
                EventView::Error { stage: Stage::Transcription, message: error@ },
            ]
            &&& transcription.skip() == Some(SkipReason::TranscriptionFailed)
        },
{
}

/// One more callback in the list adds one row at the end if it was built, under its position
/// and as it describes itself, and one run if it is configured too, with its own policy on
/// errors and retries. The rows before it stay as they were.
pub proof fn law_a_callback_adds_its_own_row(
    names: Seq<String>,
    name: String,
    built: Seq<(String, SinkFace)>,
    configured: Seq<(String, crate::config::SinkConfig)>,
)
    requires
        names.len() <= u32::MAX,
    ensures
        rows(Seq::empty(), built).len() == 0,
        runs(Seq::empty(), built, configured).len() == 0,
        match crate::names::lookup(built, name@) {
            None => rows(names.push(name), built) == rows(names, built) && runs(
                names.push(name),
                built,
                configured,
            ) == runs(names, built, configured),
            Some(face) => {
                let more = rows(names.push(name), built);
                &&& more.drop_last() == rows(names, built)
                &&& more.len() == rows(names, built).len() + 1
                &&& more.last().id == names.len()
                &&& more.last().name == name@
                &&& more.last().kind == face.kind@
                &&& more.last().requires_text == face.requires_text
            },
        },
        match (crate::names::lookup(built, name@), crate::names::lookup(configured, name@)) {
            (Some(face), Some(config)) => {
                let more = runs(names.push(name), built, configured);
                &&& more.drop_last() == runs(names, built, configured)
                &&& more.len() == runs(names, built, configured).len() + 1
                &&& more.last().id == names.len()
                &&& more.last().name == name@
                &&& more.last().kind == face.kind@
                &&& more.last().requires_text == face.requires_text
                &&& more.last().on_error == config.on_error
                &&& more.last().retry == config.retry
            },
            _ => runs(names.push(name), built, configured) == runs(names, built, configured),
        },
{
    assert(names.push(name).drop_last() =~= names);
    let more = rows(names.push(name), built);
    let again = runs(names.push(name), built, configured);
    if crate::names::lookup(built, name@) is Some {
        assert(more.drop_last() =~= rows(names, built));
        if crate::names::lookup(configured, name@) is Some {
            assert(again.drop_last() =~= runs(names, built, configured));
        }
    }
}

/// A transcriber without an entry is tried once; one with an entry, as its entry says.
pub proof fn law_retrying_is_opted_into(config: Config, transcriber: Seq<char>)
    ensures
        crate::names::lookup(config.transcribers@, transcriber) is None ==> retry_of(
            config,
            transcriber,
        ).attempts == 1 && retry_of(config, transcriber).backoff_ms == 500,
        crate::names::lookup(config.transcribers@, transcriber) matches Some(entry) ==> retry_of(
            config,
            transcriber,
        ) == entry.retry,
{
}

proof fn lemma_no_failures(records: Seq<SinkRecord>)
    ensures
        (failures(records) == 0) == (forall|i: int|
            0 <= i < records.len() ==> !((#[trigger] records[i]).outcome is Failed)),
    decreases records.len(),
{
    if records.len() > 0 {
        let shorter = records.drop_last();
        lemma_no_failures(shorter);
        assert(forall|i: int| 0 <= i < shorter.len() ==> shorter[i] == records[i]);
        if records.last().outcome is Failed {
            assert(records[records.len() - 1].outcome is Failed);
        } else if failures(shorter) == 0 {
            assert forall|i: int| 0 <= i < records.len() implies !(
            (#[trigger] records[i]).outcome is Failed) by {
                if i < shorter.len() {
                    assert(!(shorter[i].outcome is Failed));
                }
            }
        } else {
            let i = choose|i: int|
                0 <= i < shorter.len() && (#[trigger] shorter[i]).outcome is Failed;
            assert(records[i].outcome is Failed);
        }
    }
}

/// Emits events for one session, already knowing which of them are wanted.
///
/// Carrying the session, the profile and the feedback filter together means no call site has
/// to remember all three, and no path can accidentally bypass the filter.
#[derive(Debug, Clone)]
pub struct Emitter {
    pub session: SessionId,
    pub profile: String,
    pub filter: Filter,
}

impl Emitter {
    /// The line to publish for an event, if it is wanted.
    pub fn line(&self, wall: Timestamp, event: Event) -> (result: Option<Envelope>)
        ensures
            match result {
                Some(line) => self.filter.passes(event@) && line@ == crate::event::session_line(
                    wall,
                    self.session@,
                    self.profile@,
                    event@,
                ),
                None => !self.filter.passes(event@),
            },
    {
        if self.filter.allows(&event) {
            Some(Envelope::for_session(wall, self.session.clone(), self.profile.clone(), event))
        } else {
            None
        }
    }
}

} // verus!
