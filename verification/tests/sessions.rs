//! What a session is called, where it is kept, what is recorded of it, and what the archive
//! says about how it is used.

use voice_commander::calendar::civil;
use voice_commander::clock::Timestamp;
use voice_commander::config::{AudioFormat, CaptureMode, GapMode, TriggerMode};
use voice_commander::paths::{config_dir, data_dir, socket_path};
use voice_commander::session::id::base36;
use voice_commander::session::{
    AudioSummary, CaptureSummary, LevelSummary, Outcome, Segment, SessionId, SessionRecord,
    SinkOutcome, SinkRecord, SkipReason, StopReason, TranscriptRecord,
};
use voice_commander::single::Single;
use voice_commander::stats::{notable, Summary};
use voice_commander::storage::{audio_path, data_root, event_log_path, record_path, Storage};
use voice_commander::tokens::{token_names, Tokens};

/// 2026-09-11 14:48:12 UTC.
fn at() -> Timestamp {
    Timestamp { seconds: 1_789_138_092, nanos: 0 }
}

fn after(seconds: i64) -> Timestamp {
    Timestamp { seconds: at().seconds + seconds, nanos: 0 }
}

/// An instant given by the clock on somebody's wall.
fn local(day: u8, hour: u8, minute: u8, second: u8, offset: i8) -> Timestamp {
    let moment = time::Date::from_calendar_date(2026, time::Month::September, day)
        .and_then(|date| date.with_hms(hour, minute, second))
        .expect("a civil time")
        .assume_offset(time::UtcOffset::from_hms(offset, 0, 0).expect("an offset"));
    Timestamp { seconds: moment.unix_timestamp(), nanos: moment.nanosecond() }
}

fn bits(value: f32) -> Single {
    Single { bits: value.to_bits() }
}

// ── ids ─────────────────────────────────────────────────────────────────────

#[test]
fn ids_are_sortable_by_time() {
    let earlier = SessionId::new(at(), "dictate", 1);
    let later = SessionId::new(after(1), "dictate", 1);
    assert!(earlier < later, "{earlier:?} should sort before {later:?}");
}

#[test]
fn ids_carry_the_profile_and_a_utc_stamp() {
    let id = SessionId::new(at(), "dictate", 0x3f9a2b);
    assert_eq!(id.as_str(), "20260911T144812Z-dictate-2hc8b");
}

#[test]
fn base_36_reads_back() {
    for value in [0, 1, 9, 10, 35, 36, 1_295, 1_296, 0x3f9a2b, u32::MAX] {
        let text = base36(value);
        assert_eq!(u32::from_str_radix(&text, 36), Ok(value));
        assert_eq!(text.starts_with('0'), value == 0);
    }
    assert_eq!(base36(0), "0");
}

#[test]
fn local_times_are_normalised_to_utc() {
    let utc = SessionId::new(local(11, 14, 48, 12, 0), "p", 1);
    let offset = SessionId::new(local(11, 16, 48, 12, 2), "p", 1);
    assert_eq!(utc, offset);
}

#[test]
fn sessions_in_the_same_second_do_not_collide() {
    assert_ne!(SessionId::new(at(), "p", 1), SessionId::new(at(), "p", 2));
}

#[test]
fn a_profile_name_cannot_escape_the_recordings_directory() {
    let id = SessionId::new(at(), "../../etc", 1);
    assert!(!id.as_str().contains('/'));
    assert!(!id.as_str().contains(".."));
}

#[test]
fn an_unusable_profile_name_still_yields_an_id() {
    let id = SessionId::new(at(), "///", 1);
    assert!(id.as_str().contains("___"));
}

#[test]
fn the_nonce_is_written_in_base_thirty_six() {
    assert_eq!(SessionId::new(at(), "p", 0).as_str(), "20260911T144812Z-p-0");
    assert_eq!(SessionId::new(at(), "p", 36).as_str(), "20260911T144812Z-p-10");
    assert_eq!(SessionId::new(at(), "p", u32::MAX).as_str(), "20260911T144812Z-p-1z141z3");
}

#[test]
fn civil_times_follow_the_calendar() {
    let leap = civil(Timestamp { seconds: 951_782_399, nanos: 0 });
    assert_eq!((leap.year, leap.month, leap.day), (2000, 2, 28));
    assert_eq!((leap.hour, leap.minute, leap.second), (23, 59, 59));
    let next = civil(Timestamp { seconds: 951_782_400, nanos: 0 });
    assert_eq!((next.month, next.day), (2, 29));
    let before = civil(Timestamp { seconds: -1, nanos: 0 });
    assert_eq!((before.year, before.month, before.day, before.second), (1969, 12, 31, 59));
}

// ── the record ──────────────────────────────────────────────────────────────

fn spoken(index: u32, duration_ms: u64, stop_reason: StopReason) -> Segment {
    Segment {
        index,
        key_down_at: at(),
        key_up_at: Some(after(2)),
        pre_roll_ms: 500,
        speech_in_pre_roll_ms: 0,
        start_offset_ms: 0,
        duration_ms,
        resumed_after_ms: None,
        stop_reason,
    }
}

fn record(id: &str, audio_path: &str, segments: Vec<Segment>) -> SessionRecord {
    SessionRecord {
        v: voice_commander::EVENT_SCHEMA_VERSION,
        id: SessionId::from_raw(id.to_owned()),
        profile: "dictate".to_owned(),
        trigger: TriggerMode::PushToTalk,
        started_at: at(),
        finalized_at: None,
        capture: CaptureSummary {
            mode: CaptureMode::Preroll,
            device: "mic".to_owned(),
            configured_pre_roll_ms: 500,
            gap: GapMode::Keep,
            gap_downgraded_to: None,
        },
        continuations: segments.iter().filter(|s| s.resumed_after_ms.is_some()).count() as u32,
        segments,
        audio: AudioSummary {
            path: audio_path.to_owned(),
            format: AudioFormat::Wav,
            sample_rate: 16_000,
            channels: 1,
            bytes: 1_000,
            duration_ms: 2_400,
        },
        levels: LevelSummary {
            peak_dbfs: bits(-10.0),
            mean_rms_dbfs: bits(-30.0),
            speech_ms: 2_000,
            silence_ms: 400,
            clipped_samples: 0,
        },
        warnings: Vec::new(),
        transcript: None,
        sinks: Vec::new(),
        outcome: Outcome::Okay,
    }
}

fn recorded(segments: Vec<Segment>) -> SessionRecord {
    record("20260911T144812Z-dictate-2hc8b", "/data/audio.wav", segments)
}

#[test]
fn event_schema_version_is_pinned() {
    assert_eq!(voice_commander::EVENT_SCHEMA_VERSION, 1);
}

#[test]
fn total_duration_sums_every_segment() {
    let record = recorded(vec![
        spoken(0, 2_000, StopReason::Released),
        spoken(1, 1_500, StopReason::Released),
    ]);
    assert_eq!(record.total_duration_ms(), 3_500);
}

#[test]
fn a_watchdog_stop_is_detectable_without_reading_every_segment() {
    let normal = recorded(vec![spoken(0, 100, StopReason::Released)]);
    assert!(!normal.hit_watchdog());

    let stuck = recorded(vec![
        spoken(0, 100, StopReason::Released),
        spoken(1, 120_000, StopReason::Watchdog),
    ]);
    assert!(stuck.hit_watchdog());
}

#[test]
fn only_success_is_a_success() {
    assert!(SinkOutcome::Okay.is_ok());
    assert!(!SinkOutcome::Failed { error: "boom".to_owned() }.is_ok());
    assert!(!SinkOutcome::Skipped { reason: SkipReason::NoTranscript }.is_ok());
}

// ── where things are kept ───────────────────────────────────────────────────

#[test]
fn sessions_are_filed_by_date() {
    let storage = Storage::new("/data".to_owned());
    let id = SessionId::from_raw("20260911T144812Z-dictate-2hc8b".to_owned());
    let path = storage.session_dir(&id, at());
    assert!(path.ends_with("recordings/2026/09/11/20260911T144812Z-dictate-2hc8b"));
    assert!(path.starts_with(&storage.recordings_dir()));
    assert_eq!(storage.root(), "/data");
}

#[test]
fn the_date_directory_uses_utc_not_local_time() {
    let storage = Storage::new("/data".to_owned());
    let id = SessionId::from_raw("x".to_owned());
    // 00:30 on the 12th in +02:00 is still the 11th in UTC.
    let path = storage.session_dir(&id, local(12, 0, 30, 0, 2));
    assert!(path.contains("/2026/09/11/"), "{path:?}");
}

#[test]
fn the_data_root_is_the_most_specific_one_given() {
    let some = |text: &str| Some(text.to_owned());
    assert_eq!(data_root(some("/a"), some("/b"), "/c".to_owned()), "/a");
    assert_eq!(data_root(None, some("/b"), "/c".to_owned()), "/b");
    assert_eq!(data_root(None, None, "/c".to_owned()), "/c");
}

#[test]
fn files_beside_a_recording_have_fixed_names() {
    assert_eq!(audio_path("/s"), "/s/audio.wav");
    assert_eq!(record_path("/s"), "/s/session.json");
    assert_eq!(event_log_path("/d"), "/d/events.jsonl");
}

#[test]
fn standard_locations_fall_back_when_the_desktop_names_none() {
    let some = |text: &str| Some(text.to_owned());
    assert_eq!(
        socket_path(some("/run/user/1000"), None),
        "/run/user/1000/voice-commander.sock"
    );
    assert_ne!(socket_path(None, some("1000")), socket_path(None, some("1001")));
    assert!(config_dir(some("/home/u/.config")) == "/home/u/.config/voice-commander");
    assert!(data_dir(some("/srv")) == "/srv/voice-commander");
}

// ── tokens ──────────────────────────────────────────────────────────────────

fn session_with_audio() -> SessionRecord {
    record(
        "20260911T144812Z-dictate-2hc8b",
        "/data/recordings/2026/09/11/sess/audio.wav",
        Vec::new(),
    )
}

fn tokens() -> Tokens {
    Tokens::for_session(&session_with_audio(), Some("open my calendar"), Some("/t/out.txt"))
}

#[test]
fn the_documented_tokens_all_resolve() {
    let tokens = tokens();
    for name in token_names() {
        assert!(tokens.get(name).is_some(), "{name} is documented but has no value");
    }
}

#[test]
fn session_values_are_substituted() {
    let tokens = tokens();
    assert_eq!(tokens.expand("{audio_path}"), "/data/recordings/2026/09/11/sess/audio.wav");
    assert_eq!(tokens.expand("{text}"), "open my calendar");
    assert_eq!(tokens.expand("{profile}"), "dictate");
    assert_eq!(tokens.expand("{duration_ms}"), "2400");
    assert_eq!(tokens.expand("{date}"), "2026-09-11");
    assert_eq!(tokens.expand("{session_dir}"), "/data/recordings/2026/09/11/sess");
}

#[test]
fn tokens_can_appear_inside_a_longer_string() {
    assert_eq!(tokens().expand("~/notes/{date}.md"), "~/notes/2026-09-11.md");
    assert_eq!(
        tokens().expand("- {started_at} {text}\n"),
        "- 2026-09-11T14:48:12Z open my calendar\n"
    );
}

#[test]
fn a_profile_without_transcription_expands_text_to_nothing() {
    let tokens = Tokens::for_session(&session_with_audio(), None, None);
    assert_eq!(tokens.expand("{text}"), "");
    assert_eq!(tokens.expand("{text_path}"), "");
    assert!(!tokens.expand("{audio_path}").is_empty());
}

#[test]
fn unknown_tokens_are_left_alone_rather_than_blanked() {
    let tokens = tokens();
    assert_eq!(tokens.expand("{nope}"), "{nope}");
    assert_eq!(
        tokens.expand(r#"{"text": "{text}"}"#),
        r#"{"text": "open my calendar"}"#
    );
}

#[test]
fn an_unmatched_brace_is_just_text() {
    assert_eq!(tokens().expand("100% { of it"), "100% { of it");
    assert_eq!(tokens().expand("}{"), "}{");
}

#[test]
fn a_token_nested_inside_other_braces_is_still_found() {
    let tokens = tokens();
    assert_eq!(
        tokens.expand(r#"{"text": "{text}", "n": {duration_ms}}"#),
        r#"{"text": "open my calendar", "n": 2400}"#
    );
}

#[test]
fn likely_typos_are_reported_but_json_braces_are_not() {
    let tokens = tokens();
    assert_eq!(tokens.unknown_in("{audio_pth}"), vec!["audio_pth".to_owned()]);
    assert!(tokens.unknown_in("{audio_path}").is_empty());
    assert!(tokens.unknown_in(r#"{"a": 1}"#).is_empty());
    assert!(tokens.unknown_in("{}").is_empty());
}

#[test]
fn what_was_substituted_is_not_scanned_again() {
    let mut tokens = tokens();
    tokens.set("text", "{profile}".to_owned());
    assert_eq!(tokens.expand("{x{text}} {profile}"), "{x{profile}} dictate");
}

#[test]
fn a_repeated_typo_is_reported_once() {
    assert_eq!(
        tokens().unknown_in("{txt} {text} {dat} {txt}"),
        vec!["txt".to_owned(), "dat".to_owned()]
    );
}

#[test]
fn each_argument_is_expanded_on_its_own() {
    let mut tokens = tokens();
    tokens.set("text", "delete everything; rm -rf /".to_owned());

    let args = tokens.expand_args(&[
        "/bin/echo".to_owned(),
        "{text}".to_owned(),
        "{audio_path}".to_owned(),
    ]);
    assert_eq!(args.len(), 3, "substitution must not create arguments");
    assert_eq!(args[1], "delete everything; rm -rf /");
}

#[test]
fn a_path_with_spaces_stays_one_argument() {
    let mut tokens = tokens();
    tokens.set("audio_path", "/home/u/my recordings/audio.wav".to_owned());

    let args = tokens.expand_args(&["cp".to_owned(), "{audio_path}".to_owned()]);
    assert_eq!(args[1], "/home/u/my recordings/audio.wav");
    assert_eq!(args.len(), 2);
}

#[test]
fn the_same_values_are_available_as_environment_variables() {
    let env = tokens().env();
    assert_eq!(env.get("VC_TEXT").map(String::as_str), Some("open my calendar"));
    assert_eq!(env.get("VC_PROFILE").map(String::as_str), Some("dictate"));
    assert!(env.contains_key("VC_AUDIO_PATH"));
    for name in token_names() {
        assert!(env.contains_key(&format!("VC_{}", name.to_ascii_uppercase())), "{name}");
    }
    assert_eq!(env.len(), token_names().len());
}

#[test]
fn an_empty_set_of_tokens_changes_nothing() {
    assert_eq!(Tokens::default().expand("{text} and {date}"), "{text} and {date}");
}

// ── statistics ──────────────────────────────────────────────────────────────

fn segment(index: u32, pre_roll_ms: u32, speech: u32, resumed: Option<u64>) -> Segment {
    Segment {
        index,
        key_down_at: at(),
        key_up_at: None,
        pre_roll_ms,
        speech_in_pre_roll_ms: speech,
        start_offset_ms: 0,
        duration_ms: 1_000,
        resumed_after_ms: resumed,
        stop_reason: StopReason::Released,
    }
}

fn session(segments: Vec<Segment>) -> SessionRecord {
    let mut session = record("s", "/a.wav", segments);
    session.audio.duration_ms = 1_000;
    session.levels.speech_ms = 900;
    session.levels.silence_ms = 100;
    session
}

#[test]
fn an_empty_corpus_summarizes_without_dividing_by_zero() {
    let summary = Summary::from_sessions(&[]);
    assert_eq!(summary.sessions, 0);
    assert_eq!(summary.median_duration_ms, 0);
    assert!(summary.advice().is_empty());
    assert_eq!(summary.resume_delay_p90(), None);
    assert_eq!(summary.pre_roll_speech_p90(), None);
}

#[test]
fn the_order_of_the_sessions_does_not_matter() {
    let mut sessions = vec![
        session(vec![segment(0, 500, 120, None), segment(1, 0, 0, Some(1_200))]),
        session(vec![segment(0, 500, 80, None), segment(1, 0, 0, Some(300))]),
        session(vec![segment(0, 500, 0, None)]),
    ];
    sessions[0].audio.duration_ms = 9_000;
    sessions[2].audio.duration_ms = 4_000;
    let forward = Summary::from_sessions(&sessions);
    sessions.reverse();
    assert_eq!(Summary::from_sessions(&sessions), forward);
    assert_eq!((forward.longest_ms, forward.median_duration_ms), (9_000, 4_000));
    assert_eq!(Summary::from_sessions(&[]), Summary::default());
}

#[test]
fn continuations_are_counted_and_their_delays_collected() {
    let sessions = vec![
        session(vec![segment(0, 500, 0, None), segment(1, 0, 0, Some(1_200))]),
        session(vec![segment(0, 500, 0, None)]),
    ];
    let summary = Summary::from_sessions(&sessions);

    assert_eq!(summary.sessions, 2);
    assert_eq!(summary.continued, 1);
    assert_eq!(summary.resume_delays_ms, vec![1_200]);
}

#[test]
fn only_the_first_segment_contributes_a_pre_roll_measurement() {
    let summary = Summary::from_sessions(&[session(vec![
        segment(0, 500, 300, None),
        segment(1, 0, 0, Some(800)),
    ])]);

    assert_eq!(summary.pre_roll_speech_ms, vec![300]);
}

#[test]
fn the_percentile_ignores_one_outlier() {
    let mut sessions: Vec<SessionRecord> = (0..19)
        .map(|_| session(vec![segment(0, 500, 0, None), segment(1, 0, 0, Some(900))]))
        .collect();
    sessions.push(session(vec![segment(0, 500, 0, None), segment(1, 0, 0, Some(30_000))]));

    let summary = Summary::from_sessions(&sessions);
    assert_eq!(summary.resume_delay_p90(), Some(900));
}

#[test]
fn advice_stays_quiet_until_there_is_enough_data() {
    let sessions: Vec<SessionRecord> =
        (0..9).map(|_| session(vec![segment(0, 500, 490, None)])).collect();
    assert!(Summary::from_sessions(&sessions).advice().is_empty());
}

#[test]
fn a_pre_roll_window_that_is_always_full_is_reported_as_too_short() {
    let sessions: Vec<SessionRecord> =
        (0..20).map(|_| session(vec![segment(0, 500, 490, None)])).collect();

    let advice = Summary::from_sessions(&sessions).advice();
    let entry = advice
        .iter()
        .find(|a| a.setting == "capture.pre_roll_ms")
        .expect("should advise on pre-roll");
    assert!(entry.message.contains("clipped"), "{}", entry.message);
    assert!(entry.message.contains("1000ms"), "{}", entry.message);
}

#[test]
fn a_pre_roll_window_that_never_catches_anything_is_reported_as_wasted() {
    let sessions: Vec<SessionRecord> =
        (0..20).map(|_| session(vec![segment(0, 500, 0, None)])).collect();

    let advice = Summary::from_sessions(&sessions).advice();
    let entry = advice
        .iter()
        .find(|a| a.setting == "capture.pre_roll_ms")
        .expect("should advise on pre-roll");
    assert!(entry.message.contains("only costing memory"), "{}", entry.message);
}

#[test]
fn frequent_watchdog_stops_are_diagnosed_as_a_keybind_problem() {
    let mut sessions: Vec<SessionRecord> =
        (0..15).map(|_| session(vec![segment(0, 500, 100, None)])).collect();
    for session in sessions.iter_mut().take(5) {
        session.segments[0].stop_reason = StopReason::Watchdog;
    }

    let advice = Summary::from_sessions(&sessions).advice();
    let entry = advice
        .iter()
        .find(|a| a.setting == "keybind")
        .expect("should diagnose the keybind");
    assert!(entry.message.contains("release keybind"), "{}", entry.message);
    assert!(entry.message.contains("toggle"), "{}", entry.message);
}

#[test]
fn transcription_and_callback_outcomes_are_tallied() {
    let transcript = |chars: usize, latency_ms: u64, error: Option<&str>| TranscriptRecord {
        transcriber: "openai".to_owned(),
        path: None,
        chars,
        latency_ms,
        language: None,
        error: error.map(str::to_owned),
    };
    let sink = |outcome: SinkOutcome| SinkRecord {
        id: 0,
        name: "a".to_owned(),
        kind: "command".to_owned(),
        outcome,
        latency_ms: 10,
        attempts: 1,
    };

    let mut ok = session(vec![segment(0, 500, 0, None)]);
    ok.transcript = Some(transcript(40, 900, None));
    ok.sinks = vec![sink(SinkOutcome::Okay)];

    let mut bad = session(vec![segment(0, 500, 0, None)]);
    bad.transcript = Some(transcript(0, 30_000, Some("timed out")));
    bad.sinks = vec![sink(SinkOutcome::Failed { error: "boom".to_owned() })];
    bad.outcome = Outcome::Partial;

    let summary = Summary::from_sessions(&[ok, bad]);
    assert_eq!(summary.transcribed, 1);
    assert_eq!(summary.transcription_failures, 1);
    assert_eq!(summary.sink_runs, 2);
    assert_eq!(summary.sink_failures, 1);
    assert_eq!(summary.partial_sessions, 1);
    assert_eq!(summary.median_transcription_ms, 900);
}

#[test]
fn durations_are_summed_and_compared() {
    let mut sessions = vec![session(vec![]), session(vec![]), session(vec![])];
    sessions[0].audio.duration_ms = 3_000;
    sessions[1].audio.duration_ms = 5_000;
    let summary = Summary::from_sessions(&sessions);
    assert_eq!(summary.total_audio_ms, 9_000);
    assert_eq!(summary.median_duration_ms, 3_000);
    assert_eq!(summary.longest_ms, 5_000);
    assert_eq!(summary.configured_pre_roll_ms, Some(500));
}

#[test]
fn letting_go_is_the_one_ending_not_worth_mentioning() {
    assert!(!notable(StopReason::Released));
    assert!(notable(StopReason::Watchdog));
    assert!(notable(StopReason::Shutdown));
}
