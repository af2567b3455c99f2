//! The capture engine and the control socket, driven one step at a time.

use voice_commander::audio::DeviceInfo;
use voice_commander::clock::{Moment, Timestamp};
use voice_commander::config::{
    AudioConfig, AudioFormat, CaptureConfig, CaptureMode, ClipboardSink, CommandPresenter, Config,
    ConfigError, ContinuationConfig, DaemonConfig, Defaults, DeviceSelector, FeedbackConfig,
    GapMode, Issue, LevelsConfig, Loaded, NotifyPresenter, OnError, PresenterConfig,
    PresenterKind, Profile, RetryConfig, SessionConfig, SinkConfig, SinkKind, SinkMode,
    SocketPresenter, StorageConfig, TriggerMode,
};
use voice_commander::engine::{
    Action, Command as EngineCommand, Conclusion, Engine, Press, Recording, Status, Step,
};
use voice_commander::event::{DeviceCloseReason, Event, Stage};
use voice_commander::fanout::{Moves, Pipeline};
use voice_commander::inflight::InFlight;
use voice_commander::listener::{
    bind, dispatched, handle, is_blank, reload, subscription, Answer, Bind, Directive,
};
use voice_commander::names::Named;
use voice_commander::pipeline::{
    build_plan, plan_transcription, SinkFace, Transcript, Transcription, TranscriptionPlan,
};
use voice_commander::presenters::{start, Presenter};
use voice_commander::protocol::{
    ActivityState, Command, ErrorCode, Request, Response, PROTOCOL_VERSION,
};
use voice_commander::session::{
    InputWarningKind, Outcome, SessionRecord, SinkOutcome, SkipReason, StopReason,
};
use voice_commander::single::{Single, Threshold};
use voice_commander::state::State;

const RATE: u32 = 16_000;

fn bits(value: f32) -> Single {
    Single { bits: value.to_bits() }
}

fn threshold(value: f32) -> Threshold {
    Threshold { value: bits(value), text: value.to_string() }
}

fn capture(mode: CaptureMode, pre_roll_ms: u32) -> CaptureConfig {
    CaptureConfig { mode, pre_roll_ms, idle_release_secs: 300, device: DeviceSelector::Default }
}

fn session(cooldown_ms: u32) -> SessionConfig {
    SessionConfig { cooldown_ms, max_recording_secs: 120, max_total_secs: 600 }
}

fn continuation() -> ContinuationConfig {
    ContinuationConfig { gap: GapMode::Drop, silence_ms: 0, max_segments: 10 }
}

fn profile(mode: CaptureMode, pre_roll_ms: u32) -> Profile {
    Profile {
        trigger: TriggerMode::PushToTalk,
        transcriber: None,
        sinks: vec![],
        sink_mode: SinkMode::Parallel,
        capture: capture(mode, pre_roll_ms),
        session: session(200),
        continuation: continuation(),
    }
}

fn config(profiles: Vec<(&str, Profile)>) -> Config {
    let mut named = Named::new();
    for (name, profile) in profiles {
        named.insert(name.to_owned(), profile);
    }
    Config {
        daemon: DaemonConfig::default(),
        audio: AudioConfig { sample_rate: RATE, channels: 1, format: AudioFormat::Wav },
        levels: LevelsConfig {
            silence_dbfs: threshold(-55.0),
            too_quiet_dbfs: threshold(-40.0),
            speech_dbfs: threshold(-45.0),
            silence_warn_after_ms: 1_000,
        },
        storage: StorageConfig {
            dir: None,
            max_age_days: 0,
            max_total_bytes: 0,
            keep_audio_after_transcribe: true,
        },
        feedback: FeedbackConfig {
            enabled: true,
            listening: true,
            processing: true,
            processing_linger_ms: 1_500,
            level_interval_ms: 50,
            presenters: vec![],
        },
        defaults: Defaults {
            capture: capture(CaptureMode::Warm, 0),
            session: session(200),
            continuation: continuation(),
        },
        transcribers: Named::new(),
        sinks: Named::new(),
        presenters: Named::new(),
        profiles: named,
    }
}

fn two_profiles(mode: CaptureMode, pre_roll_ms: u32) -> Config {
    config(vec![
        ("dictate", profile(mode, pre_roll_ms)),
        ("other", profile(mode, pre_roll_ms)),
    ])
}

fn at(ms: u64) -> Moment {
    Moment { nanos: 1_000_000_000_000 + ms * 1_000_000 }
}

/// 2026-09-11 14:48:12 UTC.
fn wall() -> Timestamp {
    Timestamp { seconds: 1_789_138_092, nanos: 0 }
}

fn mic() -> DeviceInfo {
    DeviceInfo { name: "mic".to_owned(), sample_rate: RATE, channels: 1 }
}

fn events(actions: &[Action]) -> Vec<Event> {
    actions
        .iter()
        .filter_map(|action| match action {
            Action::Emit(line) => Some(line.event.clone()),
            Action::ReleaseDevice => None,
        })
        .collect()
}

fn releases(actions: &[Action]) -> bool {
    actions.iter().any(|action| matches!(action, Action::ReleaseDevice))
}

/// Press a key as the capture thread would, with a microphone that works.
fn press(engine: &mut Engine, name: &str, now: Moment) -> Vec<Action> {
    match engine.press(name, now) {
        Press::Open { .. } => {
            let mut actions = engine.opened(name, mic(), wall());
            actions.extend(press(engine, name, now));
            actions
        }
        Press::Begin => {
            let blocks = engine.lookback(name).chunks(engine.lookback_block()).count();
            assert!(engine.can_begin(name, wall()));
            engine.begin(name, &vec![bits(-20.0); blocks], now, wall())
        }
        Press::Proceed => {
            assert!(engine.can_proceed(wall()));
            engine.proceed(now, wall())
        }
        other => panic!("nothing to do: {other:?}"),
    }
}

fn hear(engine: &mut Engine, value: f32, ms: u64, now: Moment) -> Vec<Action> {
    let samples = vec![value.to_bits(); (u64::from(RATE) * ms / 1000) as usize];
    let dbfs = bits(20.0 * value.log10());
    assert!(engine.can_capture(&samples, dbfs, dbfs));
    engine.captured(&samples, dbfs, dbfs, now, wall())
}

fn conclude(engine: &mut Engine) -> Recording {
    match engine.conclude(bits(-6.0), bits(-6.0), wall()) {
        Conclusion::Recording(recording) => *recording,
        other => panic!("expected a recording, got {other:?}"),
    }
}

fn written(bytes: u64) -> Result<(String, u64), String> {
    Ok(("/data/s/audio.wav".to_owned(), bytes))
}

// ── the engine ──────────────────────────────────────────────────────────────

#[test]
fn a_press_opens_the_device_and_records() {
    let mut engine = Engine::new(two_profiles(CaptureMode::OnDemand, 0), at(0));
    assert_eq!(engine.status(at(0)), Status::default());
    assert!(matches!(engine.press("nobody", at(0)), Press::Unknown));

    let actions = press(&mut engine, "dictate", at(0));
    assert_eq!(
        events(&actions),
        vec![
            Event::DeviceOpened { device: "mic".to_owned(), sample_rate: RATE, channels: 1 },
            Event::RecordingStarted { segment: 0, pre_roll_ms: 0, device: "mic".to_owned() },
        ]
    );
    assert!(engine.is_recording());
    let status = engine.status(at(750));
    assert_eq!(status.activity, ActivityState::Recording { segment: 0, elapsed_ms: 750 });
    assert_eq!(status.profile.as_deref(), Some("dictate"));
    let id = status.session.expect("a session");
    assert!(id.as_str().starts_with("20260911T144812Z-dictate-"));
}

#[test]
fn a_recording_is_written_and_handed_on() {
    let mut engine = Engine::new(two_profiles(CaptureMode::OnDemand, 0), at(0));
    press(&mut engine, "dictate", at(0));
    hear(&mut engine, 0.5, 1_000, at(1_000));
    let actions = engine.stop("dictate", at(1_000), wall());
    assert_eq!(
        events(&actions),
        vec![
            Event::RecordingStopped {
                segment: 0,
                duration_ms: 1_000,
                reason: StopReason::Released
            },
            Event::CooldownStarted { ms: 200 },
        ]
    );
    assert_eq!(
        engine.status(at(1_050)).activity,
        ActivityState::Cooling { remaining_ms: 150 }
    );
    assert!(engine.stop("dictate", at(1_010), wall()).is_empty(), "releasing twice");

    let (actions, over) = engine.advance(at(1_100), wall());
    assert!(actions.is_empty() && !over);
    let (_, over) = engine.advance(at(1_200), wall());
    assert!(over);

    let recording = conclude(&mut engine);
    assert_eq!(recording.finished.audio.len(), RATE as usize);
    let (handoff, actions) = engine.stored(recording, written(32_044), wall());
    let record = handoff.expect("written").record;
    assert_eq!(record.audio.path, "/data/s/audio.wav");
    assert_eq!((record.audio.bytes, record.audio.duration_ms), (32_044, 1_000));
    assert_eq!(record.outcome, Outcome::Okay);
    assert_eq!(
        events(&actions),
        vec![
            Event::SessionFinalized {
                audio_path: "/data/s/audio.wav".to_owned(),
                total_ms: 1_000,
                segments: 1
            },
            Event::DeviceClosed { reason: DeviceCloseReason::RecordingEnded },
        ]
    );
    assert!(releases(&actions), "the device exists only for the duration of a recording");
    assert_eq!(engine.status(at(1_200)), Status::default());
}

#[test]
fn a_recording_that_cannot_be_written_is_reported() {
    let mut engine = Engine::new(two_profiles(CaptureMode::Warm, 0), at(0));
    press(&mut engine, "dictate", at(0));
    hear(&mut engine, 0.5, 100, at(100));
    let recording = conclude(&mut engine);
    let (handoff, actions) = engine.stored(recording, Err("disk full".to_owned()), wall());
    assert!(handoff.is_none());
    assert_eq!(
        events(&actions),
        vec![Event::Error { stage: Stage::Storage, message: "disk full".to_owned() }]
    );
    assert!(!releases(&actions), "a warm device stays open");
}

#[test]
fn nothing_captured_leaves_nothing_to_write() {
    let mut engine = Engine::new(two_profiles(CaptureMode::OnDemand, 0), at(0));
    press(&mut engine, "dictate", at(0));
    engine.stop("dictate", at(10), wall());
    match engine.conclude(bits(-100.0), bits(-100.0), wall()) {
        Conclusion::Empty(actions) => assert!(releases(&actions)),
        other => panic!("expected nothing to write, got {other:?}"),
    }
    assert!(matches!(
        engine.conclude(bits(-100.0), bits(-100.0), wall()),
        Conclusion::Nothing
    ));
}

#[test]
fn strays_are_harmless() {
    let mut engine = Engine::new(two_profiles(CaptureMode::OnDemand, 0), at(0));
    assert!(engine.stop("dictate", at(0), wall()).is_empty());
    assert!(engine.cancel(wall()).is_empty());
    press(&mut engine, "dictate", at(0));
    assert!(engine.stop("other", at(10), wall()).is_empty(), "another profile's key");
    assert!(engine.is_recording());
}

#[test]
fn cancelling_says_so_and_keeps_nothing() {
    let mut engine = Engine::new(two_profiles(CaptureMode::OnDemand, 0), at(0));
    press(&mut engine, "dictate", at(0));
    hear(&mut engine, 0.5, 100, at(100));
    let actions = engine.cancel(wall());
    assert_eq!(
        events(&actions)[0],
        Event::SessionCancelled { reason: "cancelled by the user".to_owned() }
    );
    assert!(matches!(
        engine.conclude(bits(0.0), bits(0.0), wall()),
        Conclusion::Nothing
    ));
}

#[test]
fn a_second_press_inside_the_window_resumes() {
    let mut engine = Engine::new(two_profiles(CaptureMode::Warm, 0), at(0));
    press(&mut engine, "dictate", at(0));
    hear(&mut engine, 0.5, 100, at(100));
    engine.stop("dictate", at(100), wall());
    let actions = press(&mut engine, "dictate", at(250));
    assert_eq!(
        events(&actions),
        vec![Event::RecordingResumed { segment: 1, resumed_after_ms: 150 }]
    );
    assert_eq!(conclude(&mut engine).finished.continuations, 1);
}

#[test]
fn a_press_after_the_window_or_of_another_key_concludes_first() {
    let mut engine = Engine::new(two_profiles(CaptureMode::Warm, 0), at(0));
    press(&mut engine, "dictate", at(0));
    assert!(matches!(engine.press("other", at(10)), Press::Conclude));
    hear(&mut engine, 0.5, 100, at(100));
    engine.stop("dictate", at(100), wall());
    assert!(matches!(engine.press("dictate", at(299)), Press::Proceed));
    assert!(matches!(engine.press("dictate", at(300)), Press::Conclude));
}

#[test]
fn a_toggle_turns_off_what_it_turned_on() {
    let toggle = || EngineCommand::Toggle { profile: "dictate".to_owned() };
    let mut engine = Engine::new(two_profiles(CaptureMode::Warm, 0), at(0));
    assert!(matches!(engine.handle(toggle()), Step::Press { profile } if profile == "dictate"));
    press(&mut engine, "dictate", at(0));
    assert!(matches!(engine.handle(toggle()), Step::Release { profile } if profile == "dictate"));
    engine.stop("dictate", at(100), wall());
    assert!(matches!(engine.handle(toggle()), Step::Press { .. }), "inside the window it resumes");
    assert!(matches!(engine.handle(EngineCommand::Cancel), Step::Cancel));
    assert!(matches!(engine.handle(EngineCommand::Shutdown), Step::Shutdown));
}

#[test]
fn lookback_reaches_before_the_press() {
    let mut engine = Engine::new(two_profiles(CaptureMode::Preroll, 500), at(0));
    let actions = engine.opened("dictate", mic(), wall());
    assert!(matches!(&events(&actions)[0], Event::DeviceOpened { .. }));
    hear(&mut engine, 0.25, 2_000, at(2_000));
    assert_eq!(engine.status(at(2_000)).device.expect("open").pre_roll_available_ms, 500);
    assert_eq!(engine.lookback("dictate").len(), RATE as usize / 2);
    assert_eq!(engine.lookback_block(), 320, "twenty milliseconds");

    let actions = press(&mut engine, "dictate", at(2_000));
    assert_eq!(
        events(&actions),
        vec![Event::RecordingStarted {
            segment: 0,
            pre_roll_ms: 500,
            device: "mic".to_owned()
        }]
    );
    engine.stop("dictate", at(2_100), wall());
    let recording = conclude(&mut engine);
    assert_eq!(recording.finished.segments[0].speech_in_pre_roll_ms, 500);
    assert_eq!(recording.finished.audio.len(), RATE as usize / 2);
}

#[test]
fn levels_are_reported_while_recording_and_not_too_often() {
    let mut engine = Engine::new(two_profiles(CaptureMode::Warm, 0), at(0));
    press(&mut engine, "dictate", at(0));
    let quiet = hear(&mut engine, 0.005, 10, at(60));
    let kinds: Vec<&str> = events(&quiet).iter().map(Event::kind).collect();
    assert_eq!(kinds, vec!["level", "input_warning"]);
    assert!(matches!(
        &events(&quiet)[1],
        Event::InputWarning { kind: InputWarningKind::TooQuiet, .. }
    ));
    assert!(hear(&mut engine, 0.5, 10, at(100)).is_empty(), "forty milliseconds later");
    assert_eq!(hear(&mut engine, 0.5, 10, at(110)).len(), 1);
}

#[test]
fn silence_is_mentioned_once_it_has_persisted() {
    let mut engine = Engine::new(two_profiles(CaptureMode::Warm, 0), at(0));
    press(&mut engine, "dictate", at(0));
    let kinds = |actions: &[Action]| -> Vec<&'static str> {
        events(actions).iter().map(Event::kind).collect()
    };
    // It begins with the block at 100 ms, and is worth mentioning a second later.
    assert_eq!(kinds(&hear(&mut engine, 0.0001, 10, at(100))), vec!["level"]);
    assert_eq!(kinds(&hear(&mut engine, 0.0001, 10, at(1_099))), vec!["level"]);
    let mentioned = hear(&mut engine, 0.0001, 10, at(1_200));
    assert!(matches!(
        &events(&mentioned)[1],
        Event::InputWarning { kind: InputWarningKind::Silence, detail: None }
    ));
    // A sound ends it, and the next one has to persist anew.
    assert_eq!(kinds(&hear(&mut engine, 0.5, 10, at(1_300))), vec!["level"]);
    assert_eq!(kinds(&hear(&mut engine, 0.0001, 10, at(1_400))), vec!["level"]);
    assert_eq!(kinds(&hear(&mut engine, 0.0001, 10, at(2_399))), vec!["level"]);
    assert_eq!(kinds(&hear(&mut engine, 0.0001, 10, at(2_500))), vec!["level", "input_warning"]);
}

#[test]
fn a_recording_is_described_as_it_is_stored() {
    let mut settings = two_profiles(CaptureMode::Warm, 0);
    settings.audio = AudioConfig { sample_rate: RATE, channels: 2, format: AudioFormat::Flac };
    let mut engine = Engine::new(settings, at(0));
    let device = DeviceInfo { name: "mic".to_owned(), sample_rate: 48_000, channels: 1 };
    engine.opened("dictate", device, wall());
    press(&mut engine, "dictate", at(0));
    hear(&mut engine, 0.5, 3_000, at(1_000));
    let recording = conclude(&mut engine);
    assert_eq!(recording.sample_rate, 48_000);
    assert_eq!(recording.target.sample_rate, RATE);
    assert_eq!(recording.finished.audio.len(), 48_000);
    assert_eq!((recording.sample_count(), recording.channel_count()), (16_000, 2));
    assert_eq!(recording.duration_ms(), 1_000);

    let (handoff, actions) = engine.stored(recording, written(64_044), wall());
    let audio = handoff.expect("written").record.audio;
    assert_eq!((audio.sample_rate, audio.channels, audio.duration_ms), (RATE, 2, 1_000));
    assert_eq!(audio.format, AudioFormat::Flac);
    assert!(matches!(&events(&actions)[0], Event::SessionFinalized { total_ms: 1_000, .. }));
}

#[test]
fn indicators_that_are_off_hear_nothing_but_failures() {
    let mut silent = two_profiles(CaptureMode::Warm, 0);
    silent.feedback.enabled = false;
    let mut engine = Engine::new(silent, at(0));
    let actions = press(&mut engine, "dictate", at(0));
    assert!(events(&actions).iter().all(|event| !event.is_listening_feedback()));
    assert!(hear(&mut engine, 0.5, 10, at(100)).is_empty());
    assert!(engine.stop("dictate", at(200), wall()).is_empty());
    let lost = engine.watch_device(true, at(300), wall());
    assert!(events(&lost).iter().any(|event| matches!(event, Event::Error { .. })));
}

#[test]
fn the_watchdog_ends_a_recording_whose_release_never_came() {
    let mut engine = Engine::new(two_profiles(CaptureMode::Warm, 0), at(0));
    press(&mut engine, "dictate", at(0));
    let (actions, over) = engine.advance(at(119_999), wall());
    assert!(actions.is_empty() && !over);
    let (actions, _) = engine.advance(at(120_000), wall());
    assert!(matches!(
        &events(&actions)[0],
        Event::RecordingStopped { reason: StopReason::Watchdog, .. }
    ));
}

#[test]
fn a_device_that_does_not_open_is_a_capture_error() {
    let engine = Engine::new(two_profiles(CaptureMode::Warm, 0), at(0));
    match engine.press("dictate", at(0)) {
        Press::Open { device, sample_rate } => {
            assert_eq!(device, DeviceSelector::Default);
            assert_eq!(sample_rate, RATE);
        }
        other => panic!("expected to open a device, got {other:?}"),
    }
    let actions = engine.open_failed("no capture device available", wall());
    assert_eq!(
        events(&actions),
        vec![
            Event::Error {
                stage: Stage::Capture,
                message: "no capture device available".to_owned()
            },
            Event::InputWarning {
                kind: InputWarningKind::NoDevice,
                detail: Some("no capture device available".to_owned())
            },
        ]
    );
}

#[test]
fn the_device_is_let_go_when_it_dies_or_nobody_uses_it() {
    let mut engine = Engine::new(two_profiles(CaptureMode::Warm, 0), at(0));
    engine.opened("dictate", mic(), wall());
    assert!(engine.watch_device(false, at(299_999), wall()).is_empty());
    let idle = engine.watch_device(false, at(300_000), wall());
    assert_eq!(events(&idle), vec![Event::DeviceClosed { reason: DeviceCloseReason::Idle }]);
    assert!(releases(&idle));
    assert_eq!(engine.device(), None);

    engine.opened("dictate", mic(), wall());
    let lost = engine.watch_device(true, at(300_001), wall());
    assert_eq!(
        events(&lost),
        vec![
            Event::Error {
                stage: Stage::Capture,
                message: "the capture stream failed".to_owned()
            },
            Event::DeviceClosed { reason: DeviceCloseReason::Lost },
        ]
    );
}

#[test]
fn a_new_configuration_closes_the_device_and_forgets_the_lookback() {
    let mut engine = Engine::new(two_profiles(CaptureMode::Preroll, 500), at(0));
    engine.opened("dictate", mic(), wall());
    hear(&mut engine, 0.25, 500, at(500));
    let actions = engine.reconfigure(two_profiles(CaptureMode::Preroll, 300), wall());
    assert!(releases(&actions));
    assert!(engine.lookback("dictate").is_empty());
    assert_eq!(engine.capture_rate(), RATE);
}

#[test]
fn shutting_down_keeps_what_was_said() {
    let mut engine = Engine::new(two_profiles(CaptureMode::Warm, 0), at(0));
    press(&mut engine, "dictate", at(0));
    hear(&mut engine, 0.5, 300, at(300));
    assert_eq!(engine.totals().expect("recording").samples, 4_800);
    engine.halt(at(300), wall());
    let recording = conclude(&mut engine);
    assert_eq!(recording.finished.segments[0].stop_reason, StopReason::Shutdown);
    let closed = engine.close(DeviceCloseReason::Shutdown, wall());
    assert_eq!(events(&closed), vec![Event::DeviceClosed { reason: DeviceCloseReason::Shutdown }]);
    assert!(engine.close(DeviceCloseReason::Shutdown, wall()).is_empty());
}

#[test]
fn sessions_are_numbered_apart() {
    let mut engine = Engine::new(two_profiles(CaptureMode::Warm, 0), at(0));
    let mut ids = Vec::new();
    for _ in 0..2 {
        press(&mut engine, "dictate", at(0));
        ids.push(engine.status(at(0)).session.expect("a session"));
        engine.cancel(wall());
    }
    assert_ne!(ids[0], ids[1], "both began in the same second");
}

// ── the control socket ──────────────────────────────────────────────────────

fn state() -> State {
    State::new(
        two_profiles(CaptureMode::Warm, 0),
        vec!["careful".to_owned()],
        "/run/s.sock".to_owned(),
        "/etc/vc".to_owned(),
        at(0),
    )
}

fn ask(command: Command) -> Answer {
    handle(Ok(Request::new(command)), &state(), "0.1.0")
}

fn error_of(answer: Answer) -> (ErrorCode, String) {
    match answer {
        Answer::Reply(Response::Error { code, message }, Directive::Continue) => (code, message),
        other => panic!("expected a refusal, got {other:?}"),
    }
}

#[test]
fn a_ping_comes_back_with_the_versions() {
    match ask(Command::Ping) {
        Answer::Reply(Response::Pong { version, protocol }, Directive::Continue) => {
            assert_eq!(version, "0.1.0");
            assert_eq!(protocol, PROTOCOL_VERSION);
        }
        other => panic!("expected a pong, got {other:?}"),
    }
}

#[test]
fn a_typo_in_a_keybind_is_answered_with_the_names_there_are() {
    let (code, message) = error_of(ask(Command::Start { profile: "dictat".to_owned() }));
    assert_eq!(code, ErrorCode::UnknownProfile);
    assert_eq!(
        message,
        "no profile named \"dictat\"; configured profiles are: dictate, other"
    );
    assert!(matches!(
        ask(Command::Toggle { profile: "dictate".to_owned() }),
        Answer::Engine(EngineCommand::Toggle { .. })
    ));
    assert!(matches!(
        ask(Command::Stop { profile: "other".to_owned() }),
        Answer::Engine(EngineCommand::Stop { .. })
    ));
    assert!(matches!(ask(Command::Cancel), Answer::Engine(EngineCommand::Cancel)));
}

#[test]
fn other_requests_are_routed() {
    assert!(matches!(ask(Command::Status), Answer::Status));
    assert!(matches!(ask(Command::Reload), Answer::Reload));
    assert!(matches!(
        ask(Command::Shutdown),
        Answer::Reply(Response::Accepted { session: None }, Directive::Shutdown)
    ));
    let request = Ok(Request::new(Command::Subscribe { events: vec!["level".to_owned()] }));
    assert_eq!(subscription(&request), Some(vec!["level".to_owned()]));
    assert_eq!(subscription(&Ok(Request::new(Command::Ping))), None);
}

#[test]
fn a_client_of_another_protocol_is_told_what_to_do() {
    let request = Request { v: 999, command: Command::Ping };
    let (code, message) = error_of(handle(Ok(request), &state(), "0.1.0"));
    assert_eq!(code, ErrorCode::VersionMismatch);
    assert!(message.contains("v999") && message.contains("restart"), "{message}");
}

#[test]
fn a_line_that_is_no_request_is_refused() {
    let (code, message) = error_of(handle(Err("expected value".to_owned()), &state(), "0.1.0"));
    assert_eq!(code, ErrorCode::BadRequest);
    assert_eq!(message, "expected value");
    assert!(is_blank(" \t\n") && !is_blank(" x "));
}

#[test]
fn the_reply_does_not_wait_for_the_device() {
    assert_eq!(dispatched(false, Ok(())), Response::Accepted { session: None });
    assert!(matches!(
        dispatched(false, Err("closed".to_owned())),
        Response::Error { code: ErrorCode::Internal, .. }
    ));
    assert_eq!(dispatched(true, Err("closed".to_owned())), Response::Accepted { session: None });
}

#[test]
fn each_failure_gets_its_own_exit_code() {
    assert_ne!(
        ErrorCode::UnknownProfile.exit_code(),
        ErrorCode::DeviceUnavailable.exit_code()
    );
    assert_ne!(ErrorCode::BadRequest.exit_code(), 0);
}

#[test]
fn status_lists_the_profiles_in_order() {
    let status = state().status("0.1.0", Status::default(), at(61_500));
    assert_eq!(status.activity, ActivityState::Idle);
    assert_eq!(status.profiles, vec!["dictate", "other"]);
    assert_eq!(status.uptime_secs, 61);
    assert_eq!(status.config_warnings, 1);
    assert_eq!(status.socket, "/run/s.sock");
    assert_eq!(status.device, None);
}

#[test]
fn a_reload_replaces_the_configuration_only_when_it_is_sound() {
    let mut state = state();
    let broken = ConfigError::Syntax {
        source_name: "config.toml".to_owned(),
        message: "oops".to_owned(),
    };
    let outcome = reload(&mut state, Err(broken));
    assert!(!outcome.changed);
    assert!(matches!(
        outcome.response,
        Response::Error { code: ErrorCode::ConfigInvalid, .. }
    ));
    assert!(matches!(outcome.event, Event::Error { stage: Stage::Config, .. }));
    assert!(state.knows_profile("other"));

    let config = config(vec![("memo", profile(CaptureMode::Warm, 0))]);
    let warnings = vec![Issue::new("profiles.memo".to_owned(), "odd".to_owned())];
    let outcome = reload(&mut state, Ok(Loaded { config, warnings }));
    assert!(outcome.changed);
    assert_eq!(outcome.event, Event::ConfigReloaded { warnings: 1 });
    assert!(state.knows_profile("memo") && !state.knows_profile("other"));
}

#[test]
fn a_socket_is_taken_over_only_from_the_dead() {
    assert_eq!(bind("/run/s.sock", false, false), Bind::Proceed);
    assert_eq!(bind("/run/s.sock", true, false), Bind::RemoveStale);
    assert_eq!(
        bind("/run/s.sock", true, true),
        Bind::Refuse(
            "another voice-commander daemon is already listening on /run/s.sock".to_owned()
        )
    );
    assert_eq!(bind(&"a".repeat(107), false, false), Bind::Proceed);
    match bind(&"é".repeat(54), false, false) {
        Bind::Refuse(message) => assert!(message.contains("108 bytes"), "{message}"),
        other => panic!("expected a refusal, got {other:?}"),
    }
}

#[test]
fn running_pipelines_are_counted() {
    let mut tracker = InFlight::new();
    tracker.enter();
    tracker.enter();
    assert_eq!(tracker.count(), 2);
    assert!(!tracker.leave());
    assert!(tracker.leave(), "the last one out wakes whoever waits");
}

// ── what the configuration sets going ───────────────────────────────────────

#[test]
fn presenters_start_in_order_unless_feedback_is_off() {
    let mut config = config(vec![]);
    let command =
        CommandPresenter { cmd: vec!["overlay".to_owned()], env: Named::new(), events: vec![] };
    for (name, kind) in [
        ("bar", PresenterKind::Socket(SocketPresenter {})),
        ("osd", PresenterKind::Command(command)),
        ("toast", PresenterKind::Notify(NotifyPresenter { per_sink: true })),
    ] {
        config.presenters.insert(name.to_owned(), PresenterConfig { kind });
    }
    config.feedback.presenters =
        ["toast", "ghost", "bar", "osd"].iter().map(|name| (*name).to_owned()).collect();
    let started = start(&config);
    assert_eq!(started.len(), 2);
    assert!(matches!(&started[0], Presenter::Notify { per_sink: true }));
    assert!(matches!(&started[1], Presenter::Command(command) if command.cmd[0] == "overlay"));

    config.feedback.enabled = false;
    assert!(start(&config).is_empty());
}

#[test]
fn what_runs_is_what_was_built_and_configured() {
    let mut built = Named::new();
    built.insert("a".to_owned(), SinkFace { kind: "command".to_owned(), requires_text: false });
    let names = vec!["b".to_owned(), "a".to_owned()];
    let mut config = config(vec![]);
    config.sinks.insert(
        "a".to_owned(),
        SinkConfig {
            kind: SinkKind::Clipboard(ClipboardSink::default()),
            requires_text: None,
            on_error: OnError::FailSession,
            timeout_ms: 1_000,
            retry: RetryConfig { attempts: 3, backoff_ms: 10 },
        },
    );
    let list = build_plan(&names, &built, &config);
    assert_eq!(list.len(), 1);
    assert_eq!((list[0].id, list[0].name.as_str()), (1, "a"));
    assert_eq!(list[0].on_error, OnError::FailSession);
    assert_eq!(list[0].retry.attempts, 3);
}

#[test]
fn a_transcriber_that_was_not_built_is_named() {
    let mut engine = Engine::new(two_profiles(CaptureMode::Warm, 0), at(0));
    press(&mut engine, "dictate", at(0));
    hear(&mut engine, 0.5, 1_000, at(1_000));
    let recording = conclude(&mut engine);
    let (handoff, _) = engine.stored(recording, written(1), wall());
    let handoff = handoff.expect("written");
    let config = config(vec![]);
    let mut profile = handoff.profile;
    assert!(matches!(
        plan_transcription(&handoff.record, "dictate", &profile, &vec![], &config),
        TranscriptionPlan::NotAsked
    ));
    profile.transcriber = Some("openai".to_owned());
    assert!(matches!(
        plan_transcription(&handoff.record, "dictate", &profile, &vec![], &config),
        TranscriptionPlan::NotBuilt { transcriber } if transcriber == "openai"
    ));
    let built = vec!["openai".to_owned()];
    match plan_transcription(&handoff.record, "dictate", &profile, &built, &config) {
        TranscriptionPlan::Ask { transcriber, request, retry } => {
            assert_eq!(transcriber, "openai");
            assert_eq!(request.session_dir, "/data/s");
            assert_eq!(request.duration_ms, 1_000);
            assert_eq!(retry, RetryConfig::default());
        }
        other => panic!("expected to ask, got {other:?}"),
    }
}

// ── a run of the pipeline ───────────────────────────────────────────────────

/// A session whose recording has been stored.
fn stored_session() -> SessionRecord {
    let mut engine = Engine::new(two_profiles(CaptureMode::Warm, 0), at(0));
    press(&mut engine, "dictate", at(0));
    hear(&mut engine, 0.5, 1_000, at(1_000));
    let recording = conclude(&mut engine);
    let (handoff, _) = engine.stored(recording, written(1), wall());
    handoff.expect("written").record
}

/// A run over these callbacks: name, whether it needs text, and what its failure does.
fn begin(mode: SinkMode, sinks: &[(&str, bool, OnError)], keep_audio: bool) -> (Pipeline, Event) {
    let mut settings = config(vec![]);
    settings.storage.keep_audio_after_transcribe = keep_audio;
    let mut built = Named::new();
    let mut used = profile(CaptureMode::Warm, 0);
    used.sink_mode = mode;
    for (name, requires_text, on_error) in sinks {
        used.sinks.push((*name).to_owned());
        built.insert(
            (*name).to_owned(),
            SinkFace { kind: "command".to_owned(), requires_text: *requires_text },
        );
        settings.sinks.insert(
            (*name).to_owned(),
            SinkConfig {
                kind: SinkKind::Clipboard(ClipboardSink::default()),
                requires_text: None,
                on_error: *on_error,
                timeout_ms: 1_000,
                retry: RetryConfig { attempts: 1, backoff_ms: 0 },
            },
        );
    }
    Pipeline::begin(stored_session(), &used, &built, &settings)
}

fn heard(text: &str) -> Transcription {
    Transcription::Done {
        transcriber: "openai".to_owned(),
        transcript: Transcript { text: text.to_owned(), language: None },
        latency_ms: 5,
    }
}

fn told(moves: &Moves) -> Vec<(&'static str, Option<u32>)> {
    moves
        .events
        .iter()
        .map(|event| match event {
            Event::SinkStarted { id, .. } | Event::SinkFinished { id, .. } => {
                (event.kind(), Some(*id))
            }
            _ => (event.kind(), None),
        })
        .collect()
}

#[test]
fn a_parallel_run_announces_its_plan_first_and_its_summary_last() {
    let sinks = [
        ("agent", false, OnError::Ignore),
        ("clip", true, OnError::Ignore),
        ("hook", false, OnError::Ignore),
    ];
    let (mut run, planned) = begin(SinkMode::Parallel, &sinks, true);
    match planned {
        Event::PipelineStarted { sinks, .. } => {
            let rows: Vec<(u32, &str)> =
                sinks.iter().map(|sink| (sink.id, sink.name.as_str())).collect();
            assert_eq!(rows, vec![(0, "agent"), (1, "clip"), (2, "hook")]);
        }
        other => panic!("expected the plan, got {other:?}"),
    }
    assert!(run.asking(&TranscriptionPlan::NotAsked).is_empty());
    assert!(!run.is_transcribed() && !run.is_over());

    let moves = run.transcribed(&Transcription::NotAsked, None);
    assert_eq!(moves.start, vec![0, 2]);
    assert_eq!(
        told(&moves),
        vec![("sink_started", Some(0)), ("sink_finished", Some(1)), ("sink_started", Some(2))]
    );
    assert!(run.is_running(2) && !run.is_running(1));
    assert_eq!(run.row(2).expect("a row").name, "hook");

    let moves = run.delivered(2, Err("refused".to_owned()), 7, 2);
    assert_eq!(told(&moves), vec![("sink_finished", Some(2))]);
    assert!(moves.start.is_empty() && !run.is_over());
    let moves = run.delivered(0, Ok(()), 3, 1);
    assert_eq!(told(&moves), vec![("sink_finished", Some(0))]);
    assert!(run.is_over());

    let (record, summary, unwanted) = run.conclude(40);
    assert_eq!(
        summary,
        Event::PipelineFinished {
            ok: 1,
            failed: 1,
            skipped: 1,
            total_ms: 40,
            outcome: Outcome::Partial
        }
    );
    assert_eq!(record.sinks.iter().map(|sink| sink.id).collect::<Vec<_>>(), vec![0, 1, 2]);
    assert_eq!(
        record.sinks[1].outcome,
        SinkOutcome::Skipped { reason: SkipReason::NoTranscript }
    );
    assert_eq!((record.sinks[2].latency_ms, record.sinks[2].attempts), (7, 2));
    assert_eq!(record.sinks[0].kind, "command");
    assert!(unwanted.is_none());
}

#[test]
fn a_sequential_run_waits_for_each_callback() {
    let sinks = [("a", false, OnError::Ignore), ("b", true, OnError::Ignore)];
    let (mut run, _) = begin(SinkMode::Sequential, &sinks, true);
    let moves = run.transcribed(&heard("hi"), Some("/data/s/transcript.txt".to_owned()));
    assert_eq!(moves.start, vec![0]);
    assert_eq!(told(&moves), vec![("transcribe_done", None), ("sink_started", Some(0))]);
    assert_eq!(run.record().transcript.as_ref().expect("recorded").chars, 2);
    let moves = run.delivered(0, Err("refused".to_owned()), 1, 1);
    assert_eq!(moves.start, vec![1], "a failure that is ignored stops nothing");
    assert_eq!(told(&moves), vec![("sink_finished", Some(0)), ("sink_started", Some(1))]);
    run.delivered(1, Ok(()), 1, 1);
    assert_eq!(run.conclude(1).0.outcome, Outcome::Partial);
}

#[test]
fn nothing_is_started_once_a_decisive_callback_has_failed() {
    let sinks = [
        ("a", false, OnError::FailSession),
        ("b", false, OnError::Ignore),
        ("c", true, OnError::Ignore),
    ];
    let (mut run, _) = begin(SinkMode::Sequential, &sinks, true);
    run.transcribed(&Transcription::NotAsked, None);
    let moves = run.delivered(0, Err("refused".to_owned()), 1, 1);
    assert!(moves.start.is_empty());
    assert_eq!(
        told(&moves),
        vec![("sink_finished", Some(0)), ("sink_finished", Some(1)), ("sink_finished", Some(2))]
    );
    assert!(run.is_over());
    let (record, summary, _) = run.conclude(1);
    assert_eq!(
        record.sinks[1].outcome,
        SinkOutcome::Skipped { reason: SkipReason::EarlierSinkFailed }
    );
    assert_eq!(
        record.sinks[2].outcome,
        SinkOutcome::Skipped { reason: SkipReason::NoTranscript }
    );
    assert_eq!(record.outcome, Outcome::Failed);
    assert!(matches!(summary, Event::PipelineFinished { ok: 0, failed: 1, skipped: 2, .. }));
}

#[test]
fn asking_for_a_transcript_is_announced() {
    let (mut run, _) = begin(SinkMode::Parallel, &[], true);
    let mut asked = profile(CaptureMode::Warm, 0);
    asked.transcriber = Some("openai".to_owned());
    let built = vec!["openai".to_owned()];
    let planned = plan_transcription(run.record(), "dictate", &asked, &built, &config(vec![]));
    assert_eq!(
        run.asking(&planned),
        vec![Event::TranscribeStarted { transcriber: "openai".to_owned() }]
    );
}

#[test]
fn audio_goes_once_its_transcript_is_written_unless_it_is_to_be_kept() {
    let path = || Some("/data/s/transcript.txt".to_owned());
    let gone = |keep: bool, transcription: Transcription, written: Option<String>| {
        let (mut run, _) = begin(SinkMode::Parallel, &[], keep);
        run.transcribed(&transcription, written);
        assert!(run.is_over());
        run.conclude(1).2
    };
    assert_eq!(gone(false, heard("hi"), path()), Some("/data/s/audio.wav".to_owned()));
    assert_eq!(gone(true, heard("hi"), path()), None);
    assert_eq!(gone(false, heard("hi"), None), None, "there is no transcript on disk");
    assert_eq!(gone(false, Transcription::NotAsked, None), None);
}
