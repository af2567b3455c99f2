//! The session state machine, tested to the millisecond.
//!
//! Every timestamp here is supplied rather than read from a clock, so the cases that matter
//! (resuming one millisecond inside the continuation window, or one millisecond outside) are
//! exercised exactly.

use voice_commander::audio::level::{LevelMeter, SILENCE_FLOOR_DBFS};
use voice_commander::clock::{Moment, Timestamp};
use voice_commander::config::document::{Item, Table};
use voice_commander::config::layer::assemble;
use voice_commander::config::{
    CaptureConfig, CaptureMode, ContinuationConfig, DeviceSelector, GapMode, Layer, LevelsConfig,
    Profile, SessionConfig, SinkMode, TriggerMode, EMBEDDED_DEFAULT,
};
use voice_commander::recorder::{Finished, Phase, Recorder, Transition};
use voice_commander::session::StopReason;
use voice_commander::single::{Single, Threshold};

const RATE: u32 = 16_000;

fn bits(value: f32) -> Single {
    Single { bits: value.to_bits() }
}

fn threshold(value: f32) -> Threshold {
    Threshold { value: bits(value), text: value.to_string() }
}

fn levels() -> LevelsConfig {
    LevelsConfig {
        silence_dbfs: threshold(-55.0),
        too_quiet_dbfs: threshold(-40.0),
        speech_dbfs: threshold(-45.0),
        silence_warn_after_ms: 1_000,
    }
}

fn table<'a>(outer: &'a Table, key: &str) -> &'a Table {
    outer.get(key).and_then(Item::as_table).expect("a table")
}

fn number(table: &Table, key: &str) -> u32 {
    table.get(key).and_then(Item::as_integer).expect("a number") as u32
}

fn text<'a>(table: &'a Table, key: &str) -> &'a str {
    match table.get(key) {
        Some(Item::Text(text)) => text,
        other => panic!("expected a string, got {other:?}"),
    }
}

/// Build a profile from TOML, so these tests exercise the same resolution path the daemon
/// uses rather than constructing the struct by hand.
fn profile(overrides: &str) -> Profile {
    let document = assemble(&[
        Layer::new("<embedded>".to_owned(), EMBEDDED_DEFAULT.to_owned()),
        Layer::new("<test>".to_owned(), format!("[profiles.t]\n{overrides}")),
    ])
    .expect("valid configuration");
    let profile = table(table(&document.resolved, "profiles"), "t");
    let capture = table(profile, "capture");
    let session = table(profile, "session");
    let continuation = table(profile, "continuation");
    Profile {
        trigger: TriggerMode::PushToTalk,
        transcriber: None,
        sinks: vec![],
        sink_mode: SinkMode::Parallel,
        capture: CaptureConfig {
            mode: match text(capture, "mode") {
                "preroll" => CaptureMode::Preroll,
                "warm" => CaptureMode::Warm,
                "on_demand" => CaptureMode::OnDemand,
                other => panic!("unknown mode {other}"),
            },
            pre_roll_ms: number(capture, "pre_roll_ms"),
            idle_release_secs: number(capture, "idle_release_secs"),
            device: DeviceSelector::from_text(text(capture, "device").to_owned()),
        },
        session: SessionConfig {
            cooldown_ms: number(session, "cooldown_ms"),
            max_recording_secs: number(session, "max_recording_secs"),
            max_total_secs: number(session, "max_total_secs"),
        },
        continuation: ContinuationConfig {
            gap: match text(continuation, "gap") {
                "keep" => GapMode::Keep,
                "drop" => GapMode::Drop,
                "silence" => GapMode::Silence,
                other => panic!("unknown gap {other}"),
            },
            silence_ms: number(continuation, "silence_ms"),
            max_segments: number(continuation, "max_segments"),
        },
    }
}

fn recorder(overrides: &str) -> Recorder {
    Recorder::new(&profile(overrides), &levels(), RATE, "test-mic".to_owned())
}

/// A distinguishable tone, so audio from different moments can be told apart in the output.
fn tone(value: f32, ms: u64) -> Vec<u32> {
    vec![value.to_bits(); (u64::from(RATE) * ms / 1000) as usize]
}

fn t0() -> Moment {
    Moment { nanos: 1_000_000_000_000 }
}

fn at(ms: u64) -> Moment {
    Moment { nanos: t0().nanos + ms * 1_000_000 }
}

/// 2026-09-11 14:48:12 UTC.
fn wall() -> Timestamp {
    Timestamp { seconds: 1_789_138_092, nanos: 0 }
}

fn to_dbfs(amplitude: f32) -> f32 {
    let floor = f32::from_bits(SILENCE_FLOOR_DBFS);
    if amplitude <= 0.0 {
        floor
    } else {
        (20.0 * amplitude.log10()).max(floor)
    }
}

/// Push audio as a real capture loop would, with the level meter it would use.
fn feed(recorder: &mut Recorder, samples: &[u32]) {
    let floats: Vec<f32> = samples.iter().map(|bits| f32::from_bits(*bits)).collect();
    let squares: f64 = floats.iter().map(|s| f64::from(*s) * f64::from(*s)).sum();
    let rms = (squares / floats.len() as f64).sqrt() as f32;
    let peak = floats.iter().fold(0.0f32, |peak, s| peak.max(s.abs()));
    let snapshot =
        LevelMeter::new(levels()).measure(samples, bits(to_dbfs(rms)), bits(to_dbfs(peak)));
    recorder.push(samples, &snapshot);
}

fn finish(recorder: Recorder) -> Finished {
    let peak = f32::from_bits(recorder.totals().peak.bits);
    recorder.finish(bits(to_dbfs(peak)), bits(to_dbfs(peak)), wall())
}

fn duration_ms(samples: usize) -> u64 {
    samples as u64 * 1000 / u64::from(RATE)
}

// ── the ordinary case ───────────────────────────────────────────────────────

#[test]
fn a_press_and_release_produces_one_segment() {
    let mut recorder = recorder("");

    assert!(matches!(
        recorder.start(t0(), wall(), Vec::new(), 0),
        Transition::Started { segment: 0, .. }
    ));
    assert_eq!(recorder.phase(), Phase::Recording);

    feed(&mut recorder, &tone(0.5, 1_000));

    assert!(matches!(
        recorder.stop(at(1_000), wall(), StopReason::Released),
        Transition::Stopped { segment: 0, .. }
    ));
    assert_eq!(recorder.phase(), Phase::Cooling);

    assert_eq!(recorder.tick(at(1_100), wall()), Transition::Nothing);
    assert_eq!(recorder.tick(at(2_600), wall()), Transition::Finalized);

    let finished = finish(recorder);
    assert_eq!(finished.segments.len(), 1);
    assert_eq!(finished.continuations, 0);
    assert_eq!(duration_ms(finished.audio.len()), 1_000);
}

#[test]
fn releasing_the_key_does_not_finalize_the_session() {
    let mut recorder = recorder("");
    recorder.start(t0(), wall(), Vec::new(), 0);
    feed(&mut recorder, &tone(0.5, 500));
    recorder.stop(at(500), wall(), StopReason::Released);

    assert_eq!(recorder.phase(), Phase::Cooling, "release must open the window");
}

#[test]
fn stopping_twice_is_not_an_error() {
    let mut recorder = recorder("");
    recorder.start(t0(), wall(), Vec::new(), 0);
    recorder.stop(at(100), wall(), StopReason::Released);

    assert_eq!(recorder.stop(at(200), wall(), StopReason::Released), Transition::Nothing);
}

#[test]
fn starting_twice_is_not_an_error() {
    let mut recorder = recorder("");
    recorder.start(t0(), wall(), Vec::new(), 0);

    assert_eq!(recorder.start(at(10), wall(), tone(0.9, 100), 0), Transition::Nothing);
    assert_eq!(recorder.segment_index(), 0);
}

// ── pre-roll ────────────────────────────────────────────────────────────────

#[test]
fn pre_roll_audio_lands_at_the_start_of_the_recording() {
    let mut recorder = recorder("capture = { mode = \"preroll\", pre_roll_ms = 500 }");

    let lead_in = tone(0.25, 500);
    recorder.start(t0(), wall(), lead_in.clone(), 320);
    feed(&mut recorder, &tone(0.75, 1_000));
    recorder.stop(at(1_000), wall(), StopReason::Released);
    recorder.tick(at(3_000), wall());

    let finished = finish(recorder);
    assert_eq!(duration_ms(finished.audio.len()), 1_500);
    assert_eq!(
        &finished.audio[..lead_in.len()],
        &lead_in[..],
        "the pre-roll must be at the front"
    );
}

#[test]
fn the_pre_roll_actually_captured_is_recorded_not_the_configured_amount() {
    let mut recorder = recorder("capture = { mode = \"preroll\", pre_roll_ms = 500 }");

    match recorder.start(t0(), wall(), tone(0.25, 120), 0) {
        Transition::Started { pre_roll_ms, .. } => assert_eq!(pre_roll_ms, 120),
        other => panic!("expected a start, got {other:?}"),
    }
}

#[test]
fn speech_found_in_the_pre_roll_window_is_recorded_for_tuning() {
    let mut recorder = recorder("capture = { mode = \"preroll\", pre_roll_ms = 500 }");
    recorder.start(t0(), wall(), tone(0.25, 500), 310);
    recorder.stop(at(100), wall(), StopReason::Released);
    recorder.tick(at(3_000), wall());

    assert_eq!(finish(recorder).segments[0].speech_in_pre_roll_ms, 310);
}

#[test]
fn warm_mode_starts_at_the_keypress_with_no_lookback() {
    let mut recorder = recorder("capture = { mode = \"warm\", pre_roll_ms = 0 }");

    match recorder.start(t0(), wall(), Vec::new(), 0) {
        Transition::Started { pre_roll_ms, .. } => assert_eq!(pre_roll_ms, 0),
        other => panic!("expected a start, got {other:?}"),
    }
}

// ── continuation: the cooldown window ───────────────────────────────────────

#[test]
fn pressing_again_inside_the_window_continues_the_same_session() {
    let mut recorder = recorder("session = { cooldown_ms = 1500 }");

    recorder.start(t0(), wall(), Vec::new(), 0);
    feed(&mut recorder, &tone(0.5, 800));
    recorder.stop(at(800), wall(), StopReason::Released);

    match recorder.start(at(1_600), wall(), Vec::new(), 0) {
        Transition::Resumed { segment, resumed_after_ms } => {
            assert_eq!(segment, 1);
            assert_eq!(resumed_after_ms, 800);
        }
        other => panic!("expected a resume, got {other:?}"),
    }

    feed(&mut recorder, &tone(0.5, 400));
    recorder.stop(at(2_000), wall(), StopReason::Released);
    recorder.tick(at(4_000), wall());

    let finished = finish(recorder);
    assert_eq!(finished.segments.len(), 2, "one session, two segments");
    assert_eq!(finished.continuations, 1);
}

#[test]
fn pressing_again_after_the_window_is_a_new_session() {
    let mut recorder = recorder("session = { cooldown_ms = 1500 }");

    recorder.start(t0(), wall(), Vec::new(), 0);
    recorder.stop(at(500), wall(), StopReason::Released);
    assert_eq!(recorder.tick(at(2_100), wall()), Transition::Finalized);
    assert_eq!(recorder.phase(), Phase::Idle);
}

#[test]
fn the_window_boundary_is_exact() {
    let cooldown = 1_500;

    let mut just_inside = recorder("session = { cooldown_ms = 1500 }");
    just_inside.start(t0(), wall(), Vec::new(), 0);
    just_inside.stop(at(100), wall(), StopReason::Released);
    assert!(
        matches!(
            just_inside.start(at(100 + cooldown - 1), wall(), Vec::new(), 0),
            Transition::Resumed { .. }
        ),
        "1ms before the deadline must still continue the session"
    );

    let mut just_outside = recorder("session = { cooldown_ms = 1500 }");
    just_outside.start(t0(), wall(), Vec::new(), 0);
    just_outside.stop(at(100), wall(), StopReason::Released);
    assert_eq!(
        just_outside.tick(at(100 + cooldown), wall()),
        Transition::Finalized,
        "at the deadline the session must be over"
    );
}

#[test]
fn a_press_at_the_deadline_does_not_resume_what_is_over() {
    let mut recorder = recorder("session = { cooldown_ms = 1500 }");
    recorder.start(t0(), wall(), Vec::new(), 0);
    recorder.stop(at(100), wall(), StopReason::Released);
    assert_eq!(
        recorder.start(at(1_600), wall(), Vec::new(), 0),
        Transition::Finalized,
        "the window has closed, whether or not anything ticked meanwhile"
    );
}

#[test]
fn how_close_to_the_deadline_the_user_was_is_recorded() {
    let mut recorder = recorder("session = { cooldown_ms = 1500 }");

    recorder.start(t0(), wall(), Vec::new(), 0);
    recorder.stop(at(500), wall(), StopReason::Released);
    recorder.start(at(1_920), wall(), Vec::new(), 0);
    recorder.stop(at(2_000), wall(), StopReason::Released);
    recorder.tick(at(4_000), wall());

    let finished = finish(recorder);
    assert_eq!(
        finished.segments[0].resumed_after_ms, None,
        "the first segment resumed nothing"
    );
    assert_eq!(finished.segments[1].resumed_after_ms, Some(1_420));
}

#[test]
fn the_window_is_open_until_its_very_last_nanosecond() {
    let after_release = |nanos: u64| Moment { nanos: at(100).nanos + nanos };
    let mut pressed = recorder("session = { cooldown_ms = 1000 }");
    pressed.start(t0(), wall(), Vec::new(), 0);
    pressed.stop(at(100), wall(), StopReason::Released);
    assert_eq!(pressed.tick(after_release(999_500_000), wall()), Transition::Nothing);
    assert!(pressed.window_open(after_release(999_999_999)));
    assert_eq!(pressed.cooldown_remaining_ms(after_release(999_500_000)), 0);
    assert!(matches!(
        pressed.start(after_release(999_999_999), wall(), Vec::new(), 0),
        Transition::Resumed { segment: 1, resumed_after_ms: 999 }
    ));

    let mut ticked = recorder("session = { cooldown_ms = 1000 }");
    ticked.start(t0(), wall(), Vec::new(), 0);
    ticked.stop(at(100), wall(), StopReason::Released);
    assert!(!ticked.window_open(after_release(1_000_000_000)));
    assert_eq!(ticked.tick(after_release(1_000_000_000), wall()), Transition::Finalized);
}

#[test]
fn segments_are_numbered_and_counted_over_a_whole_session() {
    let mut recorder =
        recorder("continuation = { gap = \"drop\" }\nsession = { cooldown_ms = 1500 }");
    for (press, release) in [(0, 700), (900, 1_100), (1_500, 1_900)] {
        recorder.start(at(press), wall(), Vec::new(), 0);
        feed(&mut recorder, &tone(0.5, release - press));
        recorder.stop(at(release), wall(), StopReason::Released);
    }
    assert_eq!(recorder.tick(at(4_000), wall()), Transition::Finalized);
    let finished = recorder.finish(bits(-6.0), bits(-6.0), wall());
    let segments: Vec<(u32, u64, u64)> = finished
        .segments
        .iter()
        .map(|segment| (segment.index, segment.start_offset_ms, segment.duration_ms))
        .collect();
    assert_eq!(segments, vec![(0, 0, 700), (1, 700, 200), (2, 900, 400)]);
    assert_eq!(finished.continuations, 2);
}

#[test]
fn a_zero_cooldown_finalizes_immediately() {
    let mut recorder = recorder("session = { cooldown_ms = 0 }");

    recorder.start(t0(), wall(), Vec::new(), 0);
    recorder.stop(at(500), wall(), StopReason::Released);

    assert_eq!(recorder.tick(at(500), wall()), Transition::Finalized);
}

// ── continuation: what happens to the gap ───────────────────────────────────

#[test]
fn keeping_the_gap_produces_one_continuous_take() {
    let mut recorder = recorder(
        "capture = { mode = \"preroll\" }\ncontinuation = { gap = \"keep\" }\nsession = { cooldown_ms = 1500 }",
    );

    recorder.start(t0(), wall(), Vec::new(), 0);
    feed(&mut recorder, &tone(0.5, 500)); // spoken
    recorder.stop(at(500), wall(), StopReason::Released);
    feed(&mut recorder, &tone(0.2, 300)); // the pause, still captured
    recorder.start(at(800), wall(), Vec::new(), 0);
    feed(&mut recorder, &tone(0.5, 400)); // spoken again
    recorder.stop(at(1_200), wall(), StopReason::Released);
    recorder.tick(at(3_000), wall());

    let finished = finish(recorder);
    assert_eq!(duration_ms(finished.audio.len()), 1_200, "500 + 300 of pause + 400");
    let middle = f32::from_bits(finished.audio[RATE as usize * 600 / 1000]);
    assert!((middle - 0.2).abs() < 1e-6, "the gap audio is missing: {middle}");
}

#[test]
fn dropping_the_gap_splices_the_segments_together() {
    let mut recorder =
        recorder("continuation = { gap = \"drop\" }\nsession = { cooldown_ms = 1500 }");

    recorder.start(t0(), wall(), Vec::new(), 0);
    feed(&mut recorder, &tone(0.5, 500));
    recorder.stop(at(500), wall(), StopReason::Released);
    feed(&mut recorder, &tone(0.2, 300)); // captured, but discarded
    recorder.start(at(800), wall(), Vec::new(), 0);
    feed(&mut recorder, &tone(0.7, 400));
    recorder.stop(at(1_200), wall(), StopReason::Released);
    recorder.tick(at(3_000), wall());

    let finished = finish(recorder);
    assert_eq!(duration_ms(finished.audio.len()), 900, "500 + 400, no pause");
    assert_eq!(finished.segments[1].start_offset_ms, 500);
}

#[test]
fn inserting_silence_separates_the_utterances() {
    let mut recorder = recorder(
        "continuation = { gap = \"silence\", silence_ms = 300 }\nsession = { cooldown_ms = 1500 }",
    );

    recorder.start(t0(), wall(), Vec::new(), 0);
    feed(&mut recorder, &tone(0.5, 500));
    recorder.stop(at(500), wall(), StopReason::Released);
    recorder.start(at(800), wall(), Vec::new(), 0);
    feed(&mut recorder, &tone(0.7, 400));
    recorder.stop(at(1_200), wall(), StopReason::Released);
    recorder.tick(at(3_000), wall());

    let finished = finish(recorder);
    assert_eq!(duration_ms(finished.audio.len()), 1_200, "500 + 300 + 400");
    let inserted = f32::from_bits(finished.audio[RATE as usize * 600 / 1000]);
    assert_eq!(inserted, 0.0, "expected digital silence, got {inserted}");
}

#[test]
fn gap_audio_is_discarded_when_the_session_simply_ends() {
    let mut recorder =
        recorder("continuation = { gap = \"keep\" }\nsession = { cooldown_ms = 1500 }");

    recorder.start(t0(), wall(), Vec::new(), 0);
    feed(&mut recorder, &tone(0.5, 500));
    recorder.stop(at(500), wall(), StopReason::Released);
    feed(&mut recorder, &tone(0.2, 1_500)); // the whole window
    recorder.tick(at(2_100), wall());

    assert_eq!(
        duration_ms(finish(recorder).audio.len()),
        500,
        "trailing silence must not be kept"
    );
}

#[test]
fn on_demand_mode_cannot_keep_the_gap_and_says_so() {
    let mut recorder = recorder(
        "capture = { mode = \"on_demand\", pre_roll_ms = 0, idle_release_secs = 0 }\ncontinuation = { gap = \"keep\" }",
    );
    recorder.start(t0(), wall(), Vec::new(), 0);
    recorder.stop(at(100), wall(), StopReason::Released);
    recorder.tick(at(2_000), wall());

    let finished = finish(recorder);
    assert_eq!(finished.capture.gap, GapMode::Drop);
    assert_eq!(finished.capture.gap_downgraded_to, Some(GapMode::Drop));
    assert_eq!(finished.capture.mode, CaptureMode::OnDemand);
}

// ── limits ──────────────────────────────────────────────────────────────────

#[test]
fn the_watchdog_stops_a_recording_whose_release_never_arrived() {
    let mut recorder = recorder("session = { max_recording_secs = 2, max_total_secs = 10 }");

    recorder.start(t0(), wall(), Vec::new(), 0);
    assert_eq!(recorder.tick(at(1_999), wall()), Transition::Nothing);

    match recorder.tick(at(2_000), wall()) {
        Transition::Stopped { reason, .. } => assert_eq!(reason, StopReason::Watchdog),
        other => panic!("the watchdog did not fire: {other:?}"),
    }
}

#[test]
fn a_watchdog_stop_is_recorded_so_the_user_can_be_told() {
    let mut recorder = recorder("session = { max_recording_secs = 1, max_total_secs = 10 }");
    recorder.start(t0(), wall(), Vec::new(), 0);
    recorder.tick(at(1_000), wall());
    recorder.tick(at(5_000), wall());

    assert_eq!(finish(recorder).segments[0].stop_reason, StopReason::Watchdog);
}

#[test]
fn the_total_limit_ends_a_session_that_kept_being_continued() {
    let mut recorder = recorder(
        "session = { max_recording_secs = 2, max_total_secs = 2, cooldown_ms = 1500 }\n\
         continuation = { gap = \"drop\", max_segments = 5 }",
    );

    recorder.start(t0(), wall(), Vec::new(), 0);
    feed(&mut recorder, &tone(0.5, 1_500));
    recorder.stop(at(1_500), wall(), StopReason::Released);

    recorder.start(at(2_000), wall(), Vec::new(), 0);
    feed(&mut recorder, &tone(0.5, 600)); // total is now 2100ms, over the limit

    match recorder.tick(at(2_100), wall()) {
        Transition::Stopped { reason, cooldown_ms, .. } => {
            assert_eq!(reason, StopReason::TotalLimit);
            assert_eq!(cooldown_ms, 0, "no window after a limit was hit");
        }
        other => panic!("expected a stop, got {other:?}"),
    }
    assert_eq!(recorder.tick(at(2_101), wall()), Transition::Finalized);
}

#[test]
fn a_session_stops_continuing_once_it_hits_the_segment_limit() {
    let mut recorder =
        recorder("continuation = { max_segments = 2 }\nsession = { cooldown_ms = 1500 }");

    recorder.start(t0(), wall(), Vec::new(), 0);
    recorder.stop(at(100), wall(), StopReason::Released);
    recorder.start(at(200), wall(), Vec::new(), 0);

    match recorder.stop(at(300), wall(), StopReason::Released) {
        Transition::Stopped { cooldown_ms, .. } => {
            assert_eq!(cooldown_ms, 0, "the second segment is the last one allowed");
        }
        other => panic!("expected a stop, got {other:?}"),
    }
    assert_eq!(recorder.tick(at(301), wall()), Transition::Finalized);
}

// ── cancel ──────────────────────────────────────────────────────────────────

#[test]
fn cancelling_discards_everything() {
    let mut recorder = recorder("");

    recorder.start(t0(), wall(), tone(0.3, 200), 0);
    feed(&mut recorder, &tone(0.5, 1_000));
    assert_eq!(recorder.cancel(), Transition::Cancelled);

    assert_eq!(recorder.phase(), Phase::Idle);
    let finished = finish(recorder);
    assert!(finished.audio.is_empty(), "cancelled audio must not survive");
    assert!(finished.segments.is_empty());
}

#[test]
fn cancelling_during_the_cooldown_window_also_works() {
    let mut recorder = recorder("session = { cooldown_ms = 1500 }");

    recorder.start(t0(), wall(), Vec::new(), 0);
    feed(&mut recorder, &tone(0.5, 500));
    recorder.stop(at(500), wall(), StopReason::Released);

    assert_eq!(recorder.cancel(), Transition::Cancelled);
    assert_eq!(recorder.phase(), Phase::Idle);
    assert!(finish(recorder).audio.is_empty());
}

#[test]
fn cancelling_when_nothing_is_happening_does_nothing() {
    assert_eq!(recorder("").cancel(), Transition::Nothing);
}

// ── bookkeeping ─────────────────────────────────────────────────────────────

#[test]
fn segment_offsets_locate_each_segment_in_the_finished_audio() {
    let mut recorder =
        recorder("continuation = { gap = \"drop\" }\nsession = { cooldown_ms = 2000 }");

    recorder.start(t0(), wall(), Vec::new(), 0);
    feed(&mut recorder, &tone(0.5, 700));
    recorder.stop(at(700), wall(), StopReason::Released);
    recorder.start(at(1_000), wall(), Vec::new(), 0);
    feed(&mut recorder, &tone(0.5, 300));
    recorder.stop(at(1_300), wall(), StopReason::Released);
    recorder.tick(at(4_000), wall());

    let finished = finish(recorder);
    assert_eq!(finished.segments[0].start_offset_ms, 0);
    assert_eq!(finished.segments[0].duration_ms, 700);
    assert_eq!(finished.segments[1].start_offset_ms, 700);
    assert_eq!(finished.segments[1].duration_ms, 300);
    assert_eq!(
        finished.segments.iter().map(|s| s.duration_ms).sum::<u64>(),
        duration_ms(finished.audio.len())
    );
}

#[test]
fn kept_gap_audio_belongs_to_the_file_but_to_no_segment() {
    let mut recorder = recorder(
        "capture = { mode = \"preroll\" }\ncontinuation = { gap = \"keep\" }\nsession = { cooldown_ms = 1500 }",
    );

    recorder.start(t0(), wall(), Vec::new(), 0);
    feed(&mut recorder, &tone(0.5, 500));
    recorder.stop(at(500), wall(), StopReason::Released);
    feed(&mut recorder, &tone(0.2, 300)); // the pause
    recorder.start(at(800), wall(), Vec::new(), 0);
    feed(&mut recorder, &tone(0.5, 400));
    recorder.stop(at(1_200), wall(), StopReason::Released);
    recorder.tick(at(3_000), wall());

    let finished = finish(recorder);
    let segment_total: u64 = finished.segments.iter().map(|s| s.duration_ms).sum();
    assert_eq!(segment_total, 900, "the segments cover only what was spoken");
    assert_eq!(duration_ms(finished.audio.len()), 1_200, "the file also holds the pause");
}

#[test]
fn the_session_start_time_accounts_for_the_pre_roll() {
    let mut recorder = recorder("capture = { mode = \"preroll\", pre_roll_ms = 500 }");
    let pressed = wall();

    recorder.start(t0(), pressed, tone(0.2, 500), 0);
    recorder.stop(at(100), pressed, StopReason::Released);
    recorder.tick(at(3_000), pressed);

    let finished = finish(recorder);
    assert_eq!(
        finished.started_at,
        Timestamp { seconds: pressed.seconds - 1, nanos: 500_000_000 }
    );
    assert_eq!(finished.segments[0].key_down_at, pressed);
}

#[test]
fn level_totals_cover_the_audio_that_was_kept() {
    let mut recorder = recorder("");

    recorder.start(t0(), wall(), Vec::new(), 0);
    feed(&mut recorder, &tone(0.5, 1_000));
    recorder.stop(at(1_000), wall(), StopReason::Released);
    recorder.tick(at(3_000), wall());

    let levels = finish(recorder).levels;
    let peak_dbfs = f32::from_bits(levels.peak_dbfs.bits);
    assert!(levels.speech_ms > 0, "a loud tone should count as speech");
    assert!(peak_dbfs > -10.0, "peak was {peak_dbfs}");
    assert_eq!(levels.clipped_samples, 0);
}

#[test]
fn reported_progress_tracks_the_recording() {
    let mut recorder = recorder("session = { cooldown_ms = 1500 }");

    recorder.start(t0(), wall(), Vec::new(), 0);
    feed(&mut recorder, &tone(0.5, 750));
    assert_eq!(recorder.recorded_ms(), 750);
    assert_eq!(recorder.segment_elapsed_ms(at(750)), 750);

    recorder.stop(at(750), wall(), StopReason::Released);
    assert_eq!(recorder.cooldown_remaining_ms(at(750)), 1_500);
    assert_eq!(recorder.cooldown_remaining_ms(at(1_500)), 750);
    assert_eq!(recorder.cooldown_remaining_ms(at(2_250)), 0);
}

#[test]
fn audio_arriving_while_idle_is_ignored() {
    let mut recorder = recorder("");
    feed(&mut recorder, &tone(0.9, 5_000));

    assert_eq!(recorder.recorded_ms(), 0);
}

#[test]
fn a_press_that_cannot_be_stamped_is_told_apart() {
    let recorder = recorder("");
    let lookback = tone(0.1, 500);
    assert!(recorder.accepts_press(wall(), &lookback));
    let dawn = Timestamp { seconds: -377_705_116_800, nanos: 0 };
    assert!(recorder.accepts_press(dawn, &[]));
    assert!(!recorder.accepts_press(dawn, &lookback), "half a second before the first instant");
}
