//! From a finished recording to the callbacks: events, indicators, transcription, the plan,
//! commands, retries, and what is kept.

use voice_commander::client::{
    connect, event_line, is_running, resolve_socket_path, send, subscribe, ClientError,
    ConnectFailure, Reply,
};
use voice_commander::clock::{Span, Timestamp};
use voice_commander::command::{expand_tilde, CommandOutput, CommandSpec, ExecError, Invocation};
use voice_commander::config::{
    AudioFormat, CaptureMode, CommandPresenter, FeedbackConfig, GapMode, OnError, RetryConfig,
    StorageConfig, TriggerMode,
};
use voice_commander::event::{DeviceCloseReason, Envelope, Event, PlannedSink, Stage};
use voice_commander::feedback::Filter;
use voice_commander::listener::{matches_kind, wants};
use voice_commander::names::Named;
use voice_commander::pipeline::{
    complete, plan, tally, Emitter, Progress, Run, SinkFace, Transcript, Transcription,
};
use voice_commander::presenters::{command_for, notify};
use voice_commander::protocol::{ErrorCode, Response};
use voice_commander::retention::{measure, sweep, visit, Recording, Swept, Visit};
use voice_commander::retry::{retry, Next, RetryOutcome};
use voice_commander::session::{
    AudioSummary, CaptureSummary, InputWarningKind, LevelSummary, Outcome, SessionId,
    SessionRecord, SinkOutcome, SinkRecord, SkipReason, StopReason,
};
use voice_commander::single::Single;

fn bits(value: f32) -> Single {
    Single { bits: value.to_bits() }
}

/// 2026-09-11 14:48:12 UTC.
fn at() -> Timestamp {
    Timestamp { seconds: 1_789_138_092, nanos: 0 }
}

// ── events ──────────────────────────────────────────────────────────────────

/// One of every variant, so that nothing below can silently miss a new one.
fn all_events() -> Vec<Event> {
    vec![
        Event::DaemonReady {
            version: "0.1.0".to_owned(),
            socket: "/run/user/1000/voice-commander.sock".to_owned(),
        },
        Event::ConfigReloaded { warnings: 0 },
        Event::DeviceOpened {
            device: "Wireless Microphone RX".to_owned(),
            sample_rate: 48_000,
            channels: 1,
        },
        Event::DeviceClosed { reason: DeviceCloseReason::Idle },
        Event::RecordingStarted { segment: 0, pre_roll_ms: 500, device: "mic".to_owned() },
        level(),
        Event::InputWarning { kind: InputWarningKind::TooQuiet, detail: None },
        Event::RecordingStopped { segment: 0, duration_ms: 2400, reason: StopReason::Released },
        Event::CooldownStarted { ms: 1500 },
        Event::RecordingResumed { segment: 1, resumed_after_ms: 900 },
        Event::SessionCancelled { reason: "user".to_owned() },
        Event::SessionFinalized {
            audio_path: "/tmp/audio.wav".to_owned(),
            total_ms: 4200,
            segments: 2,
        },
        Event::PipelineStarted {
            transcriber: Some("openai".to_owned()),
            sinks: vec![PlannedSink {
                id: 0,
                name: "agent".to_owned(),
                kind: "command".to_owned(),
                requires_text: true,
            }],
        },
        Event::TranscribeStarted { transcriber: "openai".to_owned() },
        Event::TranscribeDone { chars: 142, latency_ms: 900, language: Some("en".to_owned()) },
        Event::TranscribeFailed { error: "401".to_owned(), latency_ms: 120 },
        Event::SinkStarted { id: 0, name: "agent".to_owned() },
        Event::SinkFinished {
            id: 0,
            name: "agent".to_owned(),
            outcome: SinkOutcome::Okay,
            latency_ms: 812,
            attempts: 1,
        },
        Event::PipelineFinished {
            ok: 1,
            failed: 0,
            skipped: 0,
            total_ms: 1700,
            outcome: Outcome::Okay,
        },
        Event::Error { stage: Stage::Sink, message: "boom".to_owned() },
    ]
}

#[test]
fn each_event_belongs_to_at_most_one_indicator() {
    for event in all_events() {
        assert!(
            !(event.is_listening_feedback() && event.is_processing_feedback()),
            "{} is claimed by both indicators",
            event.kind()
        );
    }
}

#[test]
fn the_listening_indicator_gets_what_it_needs_and_no_levels_leak_into_processing() {
    assert!(Event::Level {
        rms_dbfs: bits(-30.0),
        peak_dbfs: bits(-10.0),
        speech: true,
        clipping: false
    }
    .is_listening_feedback());

    assert!(Event::PipelineStarted { transcriber: None, sinks: vec![] }.is_processing_feedback());

    let error = Event::Error { stage: Stage::Capture, message: "no such device".to_owned() };
    assert!(!error.is_listening_feedback() && !error.is_processing_feedback());
}

#[test]
fn every_event_has_a_kind_of_its_own() {
    let kinds: Vec<&str> = all_events().iter().map(Event::kind).collect();
    assert_eq!(kinds[0], "daemon_ready");
    assert_eq!(kinds[5], "level");
    assert_eq!(kinds[18], "pipeline_finished");
    let mut distinct = kinds.clone();
    distinct.sort();
    distinct.dedup();
    assert_eq!(distinct.len(), 20);
}

/// The name of a variant in snake case, which is what it goes over the wire as.
fn snake_case(event: &Event) -> String {
    let debug = format!("{event:?}");
    let name = debug.split([' ', '{']).next().expect("a name");
    let mut out = String::new();
    for c in name.chars() {
        if c.is_uppercase() && !out.is_empty() {
            out.push('_');
        }
        out.extend(c.to_lowercase());
    }
    out
}

#[test]
fn every_event_reports_the_kind_it_serializes_as() {
    for event in all_events() {
        assert_eq!(event.kind(), snake_case(&event));
    }
    assert_eq!(
        all_events().iter().map(Event::kind).collect::<Vec<_>>(),
        vec![
            "daemon_ready",
            "config_reloaded",
            "device_opened",
            "device_closed",
            "recording_started",
            "level",
            "input_warning",
            "recording_stopped",
            "cooldown_started",
            "recording_resumed",
            "session_cancelled",
            "session_finalized",
            "pipeline_started",
            "transcribe_started",
            "transcribe_done",
            "transcribe_failed",
            "sink_started",
            "sink_finished",
            "pipeline_finished",
            "error",
        ]
    );
}

#[test]
fn daemon_events_carry_no_session_or_profile() {
    let line = Envelope::for_daemon(at(), Event::ConfigReloaded { warnings: 2 });
    assert_eq!(line.v, 1);
    assert_eq!(line.ts, at());
    assert!(line.session.is_none());
    assert!(line.profile.is_none());
    assert_eq!(line.event, Event::ConfigReloaded { warnings: 2 });
    assert_eq!(line.event.kind(), "config_reloaded");
}

#[test]
fn an_envelope_says_whose_event_it_is() {
    let id = SessionId::from_raw("s".to_owned());
    let event = Event::CooldownStarted { ms: 1500 };
    let line = Envelope::for_session(at(), id.clone(), "dictate".to_owned(), event);
    assert_eq!(line.v, 1);
    assert_eq!(line.session, Some(id));
    assert_eq!(line.profile.as_deref(), Some("dictate"));

    let daemon = Envelope::for_daemon(at(), Event::ConfigReloaded { warnings: 2 });
    assert_eq!((daemon.session, daemon.profile), (None, None));
}

// ── indicators ──────────────────────────────────────────────────────────────

fn feedback(enabled: bool, listening: bool, processing: bool) -> FeedbackConfig {
    FeedbackConfig {
        enabled,
        listening,
        processing,
        processing_linger_ms: 1_500,
        level_interval_ms: 50,
        presenters: Vec::new(),
    }
}

fn level() -> Event {
    Event::Level { rms_dbfs: bits(-30.0), peak_dbfs: bits(-10.0), speech: true, clipping: false }
}

fn pipeline() -> Event {
    Event::PipelineStarted { transcriber: None, sinks: Vec::new() }
}

fn failure() -> Event {
    Event::Error { stage: Stage::Capture, message: "no device".to_owned() }
}

#[test]
fn the_two_indicators_are_switched_independently() {
    let filter = Filter::new(&feedback(true, true, false));
    assert!(filter.allows(&level()));
    assert!(!filter.allows(&pipeline()));

    let filter = Filter::new(&feedback(true, false, true));
    assert!(!filter.allows(&level()));
    assert!(filter.allows(&pipeline()));
}

#[test]
fn the_master_switch_covers_both() {
    let filter = Filter::new(&feedback(false, true, true));
    assert!(!filter.allows(&level()));
    assert!(!filter.allows(&pipeline()));
}

#[test]
fn errors_are_never_suppressed() {
    let filter = Filter::new(&feedback(false, false, false));
    assert!(filter.allows(&failure()));
    assert!(filter.allows(&Event::DaemonReady {
        version: "0.1.0".to_owned(),
        socket: "/tmp/s".to_owned(),
    }));
}

#[test]
fn a_finished_session_is_reported_even_with_feedback_off() {
    let filter = Filter::new(&feedback(false, false, false));
    assert!(
        !filter.allows(&Event::SessionFinalized {
            audio_path: "/a.wav".to_owned(),
            total_ms: 100,
            segments: 1,
        }),
        "session_finalized drives the listening indicator's exit, so it follows that switch"
    );
}

#[test]
fn the_permissive_filter_passes_everything() {
    for event in all_events() {
        assert!(Filter::permissive().allows(&event));
    }
}

#[test]
fn a_session_stamps_its_events_and_drops_what_is_switched_off() {
    let mut emitter = Emitter {
        session: SessionId::from_raw("s".to_owned()),
        profile: "dictate".to_owned(),
        filter: Filter::permissive(),
    };
    let line = emitter.line(at(), pipeline()).expect("allowed");
    assert_eq!(line.session, Some(SessionId::from_raw("s".to_owned())));
    assert_eq!(line.ts, at());
    emitter.filter = Filter::new(&feedback(true, true, false));
    assert_eq!(emitter.line(at(), pipeline()), None);
}

// ── presenters ──────────────────────────────────────────────────────────────

#[test]
fn an_empty_allow_list_lets_everything_through() {
    let line = r#"{"v":1,"event":"level","rms_dbfs":-30.0}"#;
    assert!(!matches_kind(line, &vec!["recording_started".to_owned()]));
    assert!(matches_kind(line, &vec!["level".to_owned()]));
    assert!(wants(line, &vec![]));
    assert!(!wants(line, &vec!["recording_started".to_owned()]));
}

#[test]
fn a_malformed_line_matches_nothing_rather_than_everything() {
    assert!(!matches_kind("not json", &vec!["level".to_owned()]));
    assert!(!matches_kind("{}", &vec!["level".to_owned()]));
}

#[test]
fn an_event_that_is_not_text_matches_nothing() {
    assert!(!matches_kind(r#"{"event":7}"#, &vec!["7".to_owned()]));
    assert!(!matches_kind(r#"["event"]"#, &vec!["event".to_owned()]));
}

#[test]
fn a_command_presenter_gets_the_line_on_standard_input() {
    let mut env = Named::new();
    env.insert("K".to_owned(), "v".to_owned());
    let presenter = CommandPresenter {
        cmd: vec!["overlay".to_owned(), "--once".to_owned()],
        env,
        events: vec![],
    };
    let spec = command_for(&presenter, "{}".to_owned());
    assert_eq!(spec.argv, presenter.cmd);
    assert_eq!(spec.env, presenter.env);
    assert_eq!(spec.stdin.as_deref(), Some("{}"));
    assert_eq!(spec.timeout, Span { seconds: 5, nanos: 0 });
}

fn notice(event: &Event, per_sink: bool) -> Option<(String, String)> {
    notify(event, per_sink).map(|spec| {
        assert_eq!(spec.argv[0], "notify-send");
        assert_eq!(spec.argv[3], "--", "a body that starts with a dash is no option");
        (spec.argv[5].clone(), spec.argv[2].clone())
    })
}

#[test]
fn only_the_coarse_milestones_become_notifications() {
    let pair = |body: &str, urgency: &str| Some((body.to_owned(), urgency.to_owned()));
    assert_eq!(notice(&failure(), false), pair("Capture: no device", "critical"));
    assert_eq!(
        notice(&Event::InputWarning { kind: InputWarningKind::TooQuiet, detail: None }, false),
        pair("microphone: TooQuiet", "critical")
    );
    let finished = |failed: usize| Event::PipelineFinished {
        ok: 2,
        failed,
        skipped: 0,
        total_ms: 1,
        outcome: Outcome::Okay,
    };
    assert_eq!(notice(&finished(0), false), pair("2 done, 0 failed, 0 skipped", "low"));
    assert_eq!(notice(&finished(1), false), pair("2 done, 1 failed, 0 skipped", "critical"));
    let callback = |outcome: SinkOutcome| Event::SinkFinished {
        id: 0,
        name: "a".to_owned(),
        outcome,
        latency_ms: 1,
        attempts: 1,
    };
    assert_eq!(notice(&callback(SinkOutcome::Okay), false), None);
    assert_eq!(notice(&callback(SinkOutcome::Okay), true), pair("a: Ok", "low"));
    assert_eq!(
        notice(&callback(SinkOutcome::Failed { error: "x\"y".to_owned() }), true),
        pair("a: Failed { error: \"x\\\"y\" }", "low")
    );
    assert_eq!(
        notice(&callback(SinkOutcome::Skipped { reason: SkipReason::NoTranscript }), true),
        pair("a: Skipped { reason: NoTranscript }", "low")
    );
    assert_eq!(notice(&level(), true), None);
}

// ── the pipeline ────────────────────────────────────────────────────────────

fn record() -> SessionRecord {
    SessionRecord {
        v: 1,
        id: SessionId::from_raw("s".to_owned()),
        profile: "dictate".to_owned(),
        trigger: TriggerMode::PushToTalk,
        started_at: at(),
        finalized_at: None,
        capture: CaptureSummary {
            mode: CaptureMode::Warm,
            device: "mic".to_owned(),
            configured_pre_roll_ms: 0,
            gap: GapMode::Drop,
            gap_downgraded_to: None,
        },
        segments: Vec::new(),
        continuations: 0,
        audio: AudioSummary {
            path: "/data/s/audio.wav".to_owned(),
            format: AudioFormat::Wav,
            sample_rate: 16_000,
            channels: 1,
            bytes: 1_000,
            duration_ms: 1_000,
        },
        levels: LevelSummary {
            peak_dbfs: bits(-10.0),
            mean_rms_dbfs: bits(-30.0),
            speech_ms: 900,
            silence_ms: 100,
            clipped_samples: 0,
        },
        warnings: Vec::new(),
        transcript: None,
        sinks: Vec::new(),
        outcome: Outcome::Okay,
    }
}

fn ran(id: u32, outcome: SinkOutcome) -> SinkRecord {
    SinkRecord {
        id,
        name: "a".to_owned(),
        kind: "command".to_owned(),
        outcome,
        latency_ms: 10,
        attempts: 1,
    }
}

fn run_of(id: u32, on_error: OnError) -> Run {
    Run {
        id,
        name: "a".to_owned(),
        kind: "command".to_owned(),
        requires_text: false,
        on_error,
        retry: RetryConfig { attempts: 1, backoff_ms: 0 },
    }
}

#[test]
fn the_plan_lists_what_was_built_by_its_place_in_the_profile() {
    let mut built = Named::new();
    built.insert(
        "agent".to_owned(),
        SinkFace { kind: "command".to_owned(), requires_text: true },
    );
    let names = vec!["agent".to_owned(), "ghost".to_owned(), "agent".to_owned()];
    let rows = plan(&names, &built);
    assert_eq!(rows.len(), 2, "what could not be built is not announced");
    assert_eq!((rows[0].id, rows[1].id), (0, 2));
    assert_eq!(rows[1].kind, "command");
    assert!(rows[0].requires_text);
}

#[test]
fn transcription_is_announced_recorded_and_decides_who_is_skipped() {
    let done = |text: &str| Transcription::Done {
        transcriber: "openai".to_owned(),
        transcript: Transcript { text: text.to_owned(), language: Some("en".to_owned()) },
        latency_ms: 900,
    };
    let spoken = done("héllo");
    assert_eq!(
        spoken.events(),
        vec![Event::TranscribeDone { chars: 5, latency_ms: 900, language: Some("en".to_owned()) }]
    );
    assert_eq!(spoken.skip_reason(), None);
    let path = spoken.transcript_path("/data/s/audio.wav");
    assert_eq!(path.as_deref(), Some("/data/s/transcript.txt"));
    let kept = spoken.record(path).expect("a record");
    assert_eq!((kept.chars, kept.latency_ms, kept.error), (5, 900, None));

    assert_eq!(done("").skip_reason(), Some(SkipReason::NoTranscript));

    let failed = Transcription::Failed {
        transcriber: "openai".to_owned(),
        error: "request timed out".to_owned(),
        latency_ms: 30_000,
    };
    assert_eq!(failed.skip_reason(), Some(SkipReason::TranscriptionFailed));
    let announced = failed.events();
    assert_eq!(announced.len(), 2);
    assert!(matches!(&announced[1], Event::Error { stage: Stage::Transcription, .. }));
    let kept = failed.record(None).expect("a record");
    assert_eq!(kept.latency_ms, 30_000);
    assert_eq!(kept.error.as_deref(), Some("request timed out"));

    assert_eq!(Transcription::NotAsked.skip_reason(), Some(SkipReason::NoTranscript));
    assert_eq!(Transcription::NotAsked.record(None), None);
    let unbuilt = Transcription::NotBuilt { transcriber: "openai".to_owned() };
    assert_eq!(unbuilt.skip_reason(), Some(SkipReason::TranscriptionFailed));
    assert_eq!(unbuilt.events().len(), 1);
}

#[test]
fn the_outcome_says_whether_anything_went_wrong() {
    let failed = || SinkOutcome::Failed { error: "boom".to_owned() };
    let skipped = || SinkOutcome::Skipped { reason: SkipReason::NoTranscript };
    let list = vec![run_of(0, OnError::Ignore), run_of(1, OnError::FailSession)];

    let (kept, event) =
        complete(record(), vec![ran(0, SinkOutcome::Okay), ran(1, skipped())], &list, 1_700);
    assert_eq!(kept.outcome, Outcome::Okay);
    assert_eq!(
        event,
        Event::PipelineFinished {
            ok: 1,
            failed: 0,
            skipped: 1,
            total_ms: 1_700,
            outcome: Outcome::Okay
        }
    );

    let (kept, _) = complete(record(), vec![ran(0, failed())], &list, 1);
    assert_eq!(kept.outcome, Outcome::Partial);
    let (kept, _) = complete(record(), vec![ran(1, failed())], &list, 1);
    assert_eq!(kept.outcome, Outcome::Failed);

    let mut unheard = record();
    unheard.transcript = Transcription::Failed {
        transcriber: "openai".to_owned(),
        error: "401".to_owned(),
        latency_ms: 3,
    }
    .record(None);
    let (kept, _) = complete(unheard, vec![ran(0, SinkOutcome::Okay)], &list, 1);
    assert_eq!(kept.outcome, Outcome::Partial);
    assert_eq!(tally(&vec![ran(0, failed()), ran(1, skipped())]), (0, 1, 1));
}

#[test]
fn progress_becomes_the_events_of_its_row() {
    assert_eq!(
        Progress::Started { id: 3, name: "a".to_owned() }.event(),
        Event::SinkStarted { id: 3, name: "a".to_owned() }
    );
    assert_eq!(
        Progress::Finished { record: ran(3, SinkOutcome::Okay) }.event(),
        Event::SinkFinished {
            id: 3,
            name: "a".to_owned(),
            outcome: SinkOutcome::Okay,
            latency_ms: 10,
            attempts: 1
        }
    );
}

// ── retention ───────────────────────────────────────────────────────────────

fn storage(days: u32, bytes: u64) -> StorageConfig {
    StorageConfig {
        dir: None,
        max_age_days: days,
        max_total_bytes: bytes,
        keep_audio_after_transcribe: true,
    }
}

/// A recording `age_days` old: its two-byte `session.json`, and `bytes` of audio.
fn make(name: &str, age_days: i64, bytes: u64) -> Recording {
    let when = Timestamp { seconds: at().seconds - age_days * 24 * 60 * 60, nanos: 0 };
    let (bytes, modified) = measure(&vec![(2, Some(when)), (bytes, Some(when))]);
    Recording { dir: name.to_owned(), modified, bytes }
}

/// Sweeps, with every removal succeeding, and says what went.
fn swept(recordings: Vec<Recording>, config: &StorageConfig) -> (Swept, Vec<String>) {
    let mut sweep = sweep(&recordings, config, at());
    let mut gone = Vec::new();
    while let Some(dir) = sweep.next() {
        gone.push(dir.to_owned());
        sweep.tried(true);
    }
    (sweep.swept(), gone)
}

#[test]
fn nothing_is_removed_when_both_limits_are_off() {
    let (swept, gone) = swept(vec![make("old", 400, 100)], &storage(0, 0));
    assert_eq!(swept, Swept::default());
    assert!(gone.is_empty());
}

#[test]
fn recordings_past_the_age_limit_are_removed() {
    let (swept, gone) =
        swept(vec![make("old", 40, 100), make("recent", 5, 100)], &storage(30, 0));
    assert_eq!(swept.removed, 1);
    assert_eq!(swept.bytes_freed, 102);
    assert_eq!(gone, vec!["old"], "a recent recording was taken too");
}

#[test]
fn the_size_limit_removes_the_oldest_first() {
    let recordings = vec![make("a", 30, 1_000), make("b", 20, 1_000), make("c", 10, 1_000)];
    // Room for roughly two of them.
    let (swept, gone) = swept(recordings, &storage(0, 2_200));
    assert_eq!(swept.removed, 1);
    assert_eq!(gone, vec!["a"], "the oldest should go first");
}

#[test]
fn both_limits_apply_together() {
    let recordings =
        vec![make("recent", 1, 1_000), make("ancient", 100, 1_000), make("old", 20, 5_000)];
    let (swept, gone) = swept(recordings, &storage(30, 2_000));
    assert_eq!(swept.removed, 2);
    assert_eq!(gone, vec!["ancient", "old"]);
}

#[test]
fn a_second_sweep_removes_nothing() {
    let found = vec![
        make("recent", 1, 1_000),
        make("ancient", 100, 1_000),
        make("old", 20, 5_000),
        make("older", 21, 900),
    ];
    let (first, gone) = swept(found.clone(), &storage(30, 6_100));
    assert_eq!(gone, vec!["ancient", "older"]);
    assert_eq!(first, Swept { removed: 2, bytes_freed: 1_904 });

    let left: Vec<Recording> =
        found.into_iter().filter(|recording| !gone.contains(&recording.dir)).collect();
    let (second, gone) = swept(left, &storage(30, 6_100));
    assert_eq!(second, Swept::default());
    assert!(gone.is_empty());
}

#[test]
fn a_directory_without_a_session_file_is_no_recording() {
    assert_eq!(visit(false, 4), Visit::Ignore);
    assert_eq!(visit(false, 1), Visit::Descend);
    assert_eq!(visit(true, 4), Visit::Recording);
}

#[test]
fn an_absent_recordings_directory_is_not_an_error() {
    let (swept, gone) = swept(Vec::new(), &storage(30, 1_000));
    assert_eq!(swept, Swept::default());
    assert!(gone.is_empty());
}

#[test]
fn a_size_limit_that_everything_already_fits_under_removes_nothing() {
    let (swept, gone) = swept(vec![make("a", 1, 100)], &storage(0, 1_000_000));
    assert_eq!(swept.removed, 0);
    assert!(gone.is_empty());
}

#[test]
fn what_could_not_be_removed_is_not_counted_as_freed() {
    let recordings = vec![make("a", 30, 1_000), make("b", 20, 1_000)];
    let mut sweep = sweep(&recordings, &storage(0, 1_100), at());
    assert_eq!(sweep.next(), Some("a"));
    sweep.tried(false);
    assert_eq!(sweep.next(), Some("b"));
    sweep.tried(true);
    assert_eq!(sweep.next(), None);
    assert_eq!(sweep.swept(), Swept { removed: 1, bytes_freed: 1_002 });
}

// ── retries ─────────────────────────────────────────────────────────────────

fn policy(attempts: u32, backoff_ms: u64) -> RetryConfig {
    RetryConfig { attempts, backoff_ms }
}

/// Runs to the end without waiting; also says how long the waiting would have been.
fn drive<T, E>(
    policy: &RetryConfig,
    mut attempt: impl FnMut(u32) -> RetryOutcome<T, E>,
) -> (Result<T, E>, u32, u128) {
    let mut attempts = retry(policy);
    let mut waited = 0;
    loop {
        let outcome = attempt(attempts.number());
        match attempts.attempted(outcome) {
            Next::Wait(nanos) => waited += nanos,
            Next::Stop(result, total) => return (result, total, waited),
        }
    }
}

#[test]
fn a_success_on_the_first_try_costs_one_attempt() {
    let (result, attempts, _) = drive(&policy(3, 1), |_| RetryOutcome::Done::<_, ()>("ok"));
    assert_eq!(result, Ok("ok"));
    assert_eq!(attempts, 1);
}

#[test]
fn a_transient_failure_is_retried_until_it_works() {
    let mut calls = 0;
    let (result, attempts, _) = drive(&policy(5, 1), |_| {
        calls += 1;
        if calls <= 2 {
            RetryOutcome::Retry("connection refused")
        } else {
            RetryOutcome::Done("ok")
        }
    });

    assert_eq!(result, Ok("ok"));
    assert_eq!(attempts, 3, "the attempt count goes into session.json");
    assert_eq!(calls, 3);
}

#[test]
fn a_fatal_failure_is_not_retried() {
    let mut calls = 0;
    let (result, attempts, _) = drive(&policy(5, 1), |_| {
        calls += 1;
        RetryOutcome::Fatal::<(), _>("401 unauthorized")
    });

    assert_eq!(result, Err("401 unauthorized"));
    assert_eq!(attempts, 1);
    assert_eq!(calls, 1, "a bad key is still bad");
}

#[test]
fn the_last_error_is_what_comes_back() {
    let (result, attempts, _) = drive(&policy(3, 1), |number| {
        RetryOutcome::Retry::<(), _>(format!("attempt {number} failed"))
    });

    assert_eq!(result, Err("attempt 3 failed".to_owned()));
    assert_eq!(attempts, 3);
}

#[test]
fn one_attempt_means_no_retrying() {
    let mut calls = 0;
    let (_, attempts, _) = drive(&policy(1, 1), |_| {
        calls += 1;
        RetryOutcome::Retry::<(), _>("nope")
    });

    assert_eq!(attempts, 1);
    assert_eq!(calls, 1);
}

#[test]
fn a_zero_attempt_policy_still_tries_once() {
    let (result, attempts, _) = drive(&policy(0, 1), |_| RetryOutcome::Done::<_, ()>(1));
    assert_eq!(result, Ok(1));
    assert_eq!(attempts, 1);
}

#[test]
fn backoff_doubles_between_attempts() {
    let (_, attempts, waited) =
        drive(&policy(3, 100), |_| RetryOutcome::Retry::<(), _>("nope"));
    assert_eq!(attempts, 3);
    // 100ms before the second attempt, 200ms before the third.
    assert_eq!(waited, 300_000_000);
}

#[test]
fn only_the_transient_is_worth_another_try() {
    assert!(matches!(RetryOutcome::<(), _>::of(Err("x"), true), RetryOutcome::Retry("x")));
    assert!(matches!(RetryOutcome::<(), _>::of(Err("x"), false), RetryOutcome::Fatal("x")));
    assert!(matches!(RetryOutcome::<_, ()>::of(Ok(1), true), RetryOutcome::Done(1)));
}

// ── commands ────────────────────────────────────────────────────────────────

fn output(status: Option<i32>, stderr: &str) -> CommandOutput {
    CommandOutput {
        status,
        stdout: String::new(),
        stderr: stderr.to_owned(),
        timed_out: false,
        elapsed: Span { seconds: 0, nanos: 5_000_000 },
    }
}

#[test]
fn command_an_empty_command_is_rejected() {
    let spec = CommandSpec::new(Vec::new());
    assert_eq!(spec.invocation(None), Err(ExecError::Empty));
    assert_eq!(spec.program(), "");
}

#[test]
fn a_leading_tilde_becomes_the_home_directory() {
    let home = Some("/home/tester");
    assert_eq!(expand_tilde("~/.local/bin/x", home), "/home/tester/.local/bin/x");
    assert_eq!(expand_tilde("~", home), "/home/tester");
    assert_eq!(expand_tilde("~/x", None), "~/x");
}

#[test]
fn a_tilde_elsewhere_is_left_alone() {
    let home = Some("/home/tester");
    assert_eq!(expand_tilde("/opt/a~b", home), "/opt/a~b");
    // `~user` needs a passwd lookup nobody has asked for.
    assert_eq!(expand_tilde("~root/x", home), "~root/x");
}

#[test]
fn arguments_are_handed_over_untouched() {
    let argv = vec!["~/say".to_owned(), "hello; touch /tmp/x".to_owned(), "~".to_owned()];
    let spec = CommandSpec::new(argv)
        .with_cwd(Some("~/work".to_owned()))
        .with_stdin(Some("in".to_owned()));
    assert_eq!(
        spec.invocation(Some("/h")),
        Ok(Invocation {
            program: "/h/say".to_owned(),
            args: vec!["hello; touch /tmp/x".to_owned(), "~".to_owned()],
            cwd: Some("/h/work".to_owned()),
        })
    );
    assert_eq!(spec.timeout, Span { seconds: 60, nanos: 0 });
}

#[test]
fn a_failure_is_explained_by_whoever_can() {
    assert_eq!(
        output(Some(1), "\n  model file not found\nbacktrace\n").failure_reason(),
        "model file not found"
    );
    assert_eq!(output(Some(7), "  \u{2003}\n").failure_reason(), "exited with status 7");
    assert_eq!(output(Some(-7), "").failure_reason(), "exited with status -7");
    assert_eq!(output(None, "").failure_reason(), "killed by a signal");
    assert!(output(Some(0), "").succeeded());
    assert!(!output(Some(3), "").succeeded());

    let late = CommandOutput::overdue(Span { seconds: 0, nanos: 100_000_000 });
    assert_eq!(late.failure_reason(), "timed out after 100ms");
    assert!(!late.succeeded());
}

#[test]
fn a_program_that_did_not_run_is_named() {
    let absent = ExecError::not_started("xyz".to_owned(), true, "no".to_owned());
    assert_eq!(absent.to_text(), "xyz is not on PATH or is not executable");
    let broken = ExecError::not_started("xyz".to_owned(), false, "denied".to_owned());
    assert_eq!(broken.to_text(), "could not start xyz: denied");
    assert_eq!(ExecError::Empty.to_text(), "the command was empty");
    let unread = ExecError::Io { program: "xyz".to_owned(), source: "closed".to_owned() };
    assert_eq!(unread.to_text(), "reading the output of xyz: closed");
}

// ── the client ──────────────────────────────────────────────────────────────

fn refusal() -> Response {
    Response::Error { code: ErrorCode::UnknownProfile, message: "no such profile".to_owned() }
}

#[test]
fn a_reply_is_an_answer_or_a_reason_why_not() {
    assert_eq!(send(Reply::Parsed(Response::Subscribed)), Ok(Response::Subscribed));
    assert_eq!(send(Reply::Closed), Err(ClientError::NoReply));
    assert_eq!(
        send(Reply::Unparsed("eof".to_owned())),
        Err(ClientError::Malformed("eof".to_owned()))
    );
    let refused = send(Reply::Parsed(refusal())).expect_err("a refusal");
    assert_eq!(refused.to_text(), "no such profile");
    assert_eq!(refused.exit_code(), ErrorCode::UnknownProfile.exit_code());
}

#[test]
fn subscribing_wants_to_be_confirmed() {
    assert_eq!(subscribe(Reply::Parsed(Response::Subscribed), ""), Ok(()));
    assert!(subscribe(Reply::Parsed(refusal()), "").is_err());
    let other = subscribe(Reply::Parsed(Response::Accepted { session: None }), "Accepted")
        .expect_err("not a confirmation");
    assert_eq!(other.to_text(), "expected a subscription, got Accepted");
    assert_eq!(subscribe(Reply::Closed, ""), Err(ClientError::NoReply));
}

#[test]
fn a_daemon_that_is_not_there_is_told_apart() {
    let absent = connect("/s", ConnectFailure::NotFound);
    assert_eq!(absent, connect("/s", ConnectFailure::Refused));
    assert_eq!(absent.exit_code(), 69);
    assert_eq!(absent.to_text(), "no daemon is listening on /s");
    let denied = connect("/s", ConnectFailure::Other("denied".to_owned()));
    assert_eq!(denied.exit_code(), 1);
    assert_eq!(denied.to_text(), "talking to the daemon on /s: denied");
    assert_eq!(
        ClientError::NoReply.to_text(),
        "the daemon closed the connection without replying"
    );
    assert!(is_running(&Ok(Response::Pong { version: "1".to_owned(), protocol: 1 })));
    assert!(!is_running(&Err(absent)));
}

#[test]
fn event_lines_lose_their_line_ending() {
    assert_eq!(event_line("{}\n").as_deref(), Some("{}"));
    assert_eq!(event_line(""), None, "the stream has ended");
}

#[test]
fn the_socket_given_explicitly_wins() {
    let some = |text: &str| Some(text.to_owned());
    assert_eq!(resolve_socket_path(some("/a"), some("/b"), some("/r"), None), "/a");
    assert_eq!(resolve_socket_path(None, some("/b"), some("/r"), None), "/b");
    assert_eq!(
        resolve_socket_path(None, None, some("/r"), None),
        "/r/voice-commander.sock"
    );
}
