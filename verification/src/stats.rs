//! Turning a pile of recordings into the two numbers the configuration actually turns on.
//!
//! The whole reason for logging timings was that `pre_roll_ms` and `cooldown_ms` cannot be
//! guessed: they depend on how a particular person presses a particular key. After a couple
//! of weeks of real use the recordings say what they should be, and this works it out.
//!
//! Pure: it takes records and returns numbers. Reading them off disk is the caller's job.

use vstd::prelude::*;

use crate::lists::{sorted, Ranked};
use crate::session::{Outcome, Segment, SessionRecord, SinkOutcome, SinkRecord, StopReason};
use crate::text::decimal_text;

verus! {

/// What a corpus of recordings says.
#[derive(Debug, Clone, PartialEq, Eq, Default)]
pub struct Summary {
    pub sessions: usize,
    pub total_audio_ms: u64,
    pub median_duration_ms: u64,
    pub longest_ms: u64,
    /// Sessions that were continued at least once.
    pub continued: usize,
    /// How long after releasing the key the user pressed again, sorted.
    pub resume_delays_ms: Vec<u64>,
    /// How much speech was found in the pre-roll window, sorted.
    pub pre_roll_speech_ms: Vec<u32>,
    /// The configured pre-roll, taken from the most recent session that had one.
    pub configured_pre_roll_ms: Option<u32>,
    /// Recordings cut off by the watchdog, i.e. a release keybind that never fired.
    pub watchdog_stops: usize,
    pub transcribed: usize,
    pub transcription_failures: usize,
    pub median_transcription_ms: u64,
    pub sink_runs: usize,
    pub sink_failures: usize,
    pub partial_sessions: usize,
}

/// A recommendation the numbers support.
#[derive(Debug, Clone, PartialEq, Eq)]
pub struct Advice {
    pub setting: &'static str,
    pub message: String,
}

/// What a recommendation says: which setting, and why.
pub open spec fn advice_view(advice: Advice) -> (Seq<char>, Seq<char>) {
    (advice.setting@, advice.message@)
}

/// What a list of recommendations says.
pub open spec fn advice_views(advice: Seq<Advice>) -> Seq<(Seq<char>, Seq<char>)> {
    advice.map_values(|a: Advice| advice_view(a))
}

// ── what a corpus holds ─────────────────────────────────────────────────────

/// How long each recording is.
pub open spec fn durations(sessions: Seq<SessionRecord>) -> Seq<u64> {
    sessions.map_values(|s: SessionRecord| s.audio.duration_ms)
}

/// The sum of a list of durations.
pub open spec fn sum(values: Seq<u64>) -> int
    decreases values.len(),
{
    if values.len() == 0 {
        0
    } else {
        sum(values.drop_last()) + values.last()
    }
}

/// The largest of a list of durations, or zero.
pub open spec fn largest(values: Seq<u64>) -> u64
    decreases values.len(),
{
    if values.len() == 0 {
        0
    } else if largest(values.drop_last()) >= values.last() {
        largest(values.drop_last())
    } else {
        values.last()
    }
}

/// The upper median of a list, or zero.
pub open spec fn median_of(values: Seq<u64>) -> u64 {
    if values.len() == 0 {
        0
    } else {
        crate::lists::ascending(values)[values.len() as int / 2]
    }
}

/// The delay of a continuation.
pub open spec fn delay_rule() -> spec_fn(Segment) -> Seq<u64> {
    |segment: Segment|
        match segment.resumed_after_ms {
            Some(delay) => seq![delay],
            None => Seq::empty(),
        }
}

/// The speech found in a pre-roll window. Only the first segment of a session has one; later
/// ones are governed by the continuation mode instead.
pub open spec fn speech_rule() -> spec_fn(Segment) -> Seq<u32> {
    |segment: Segment|
        if segment.index == 0 && segment.pre_roll_ms > 0 {
            seq![segment.speech_in_pre_roll_ms]
        } else {
            Seq::empty()
        }
}

/// Every continuation delay of a session.
pub open spec fn session_delays() -> spec_fn(SessionRecord) -> Seq<u64> {
    |s: SessionRecord| crate::lists::gathered(s.segments@, delay_rule())
}

/// Every pre-roll measurement of a session.
pub open spec fn session_speech() -> spec_fn(SessionRecord) -> Seq<u32> {
    |s: SessionRecord| crate::lists::gathered(s.segments@, speech_rule())
}

/// How long a successful transcription took.
pub open spec fn session_latency() -> spec_fn(SessionRecord) -> Seq<u64> {
    |s: SessionRecord|
        match s.transcript {
            Some(transcript) => if transcript.error is None {
                seq![transcript.latency_ms]
            } else {
                Seq::empty()
            },
            None => Seq::empty(),
        }
}

pub open spec fn was_continued() -> spec_fn(SessionRecord) -> bool {
    |s: SessionRecord| s.continuations > 0
}

pub open spec fn was_cut_off() -> spec_fn(SessionRecord) -> bool {
    |s: SessionRecord| crate::session::record::watchdog_fired(s.segments@)
}

pub open spec fn was_partial() -> spec_fn(SessionRecord) -> bool {
    |s: SessionRecord| s.outcome == Outcome::Partial
}

pub open spec fn was_transcribed() -> spec_fn(SessionRecord) -> bool {
    |s: SessionRecord| s.transcript matches Some(transcript) && transcript.error is None
}

pub open spec fn failed_to_transcribe() -> spec_fn(SessionRecord) -> bool {
    |s: SessionRecord| s.transcript matches Some(transcript) && transcript.error is Some
}

pub open spec fn sink_failed() -> spec_fn(SinkRecord) -> bool {
    |sink: SinkRecord| sink.outcome is Failed
}

/// How many callbacks ran in all sessions.
pub open spec fn runs(sessions: Seq<SessionRecord>) -> nat
    decreases sessions.len(),
{
    if sessions.len() == 0 {
        0
    } else {
        runs(sessions.drop_last()) + sessions.last().sinks@.len()
    }
}

/// How many callbacks failed in all sessions.
pub open spec fn failures(sessions: Seq<SessionRecord>) -> nat
    decreases sessions.len(),
{
    if sessions.len() == 0 {
        0
    } else {
        failures(sessions.drop_last()) + crate::lists::count(
            sessions.last().sinks@,
            sink_failed(),
        )
    }
}

/// The pre-roll of the last session that was configured with one.
pub open spec fn last_pre_roll(sessions: Seq<SessionRecord>) -> Option<u32>
    decreases sessions.len(),
{
    if sessions.len() == 0 {
        None
    } else if sessions.last().capture.configured_pre_roll_ms > 0 {
        Some(sessions.last().capture.configured_pre_roll_ms)
    } else {
        last_pre_roll(sessions.drop_last())
    }
}

proof fn lemma_sum_ascends(values: Seq<u64>, n: int)
    requires
        0 <= n <= values.len(),
    ensures
        0 <= sum(values.take(n)) <= sum(values),
    decreases values.len(),
{
    if n == values.len() {
        assert(values.take(n) =~= values);
        if n > 0 {
            assert(values.drop_last().take(n - 1) =~= values.drop_last());
            lemma_sum_ascends(values.drop_last(), n - 1);
        }
    } else {
        assert(values.drop_last().take(n) =~= values.take(n));
        lemma_sum_ascends(values.drop_last(), n);
    }
}

proof fn lemma_runs_ascend(sessions: Seq<SessionRecord>, n: int)
    requires
        0 <= n <= sessions.len(),
    ensures
        failures(sessions.take(n)) <= runs(sessions.take(n)) <= runs(sessions),
    decreases sessions.len(),
{
    if n == sessions.len() {
        assert(sessions.take(n) =~= sessions);
        if n > 0 {
            assert(sessions.drop_last().take(n - 1) =~= sessions.drop_last());
            lemma_runs_ascend(sessions.drop_last(), n - 1);
            lemma_count_bounded(sessions.last().sinks@, sink_failed());
        }
    } else {
        assert(sessions.drop_last().take(n) =~= sessions.take(n));
        lemma_runs_ascend(sessions.drop_last(), n);
    }
}

proof fn lemma_count_bounded<T>(items: Seq<T>, condition: spec_fn(T) -> bool)
    ensures
        crate::lists::count(items, condition) <= items.len(),
    decreases items.len(),
{
    if items.len() > 0 {
        lemma_count_bounded(items.drop_last(), condition);
    }
}

/// The tallies that a corpus amounts to, before its lists are sorted.
struct Tally {
    continued: usize,
    watchdog_stops: usize,
    transcribed: usize,
    transcription_failures: usize,
    partial_sessions: usize,
}

impl Tally {
    spec fn counts(self, sessions: Seq<SessionRecord>) -> bool {
        &&& self.continued == crate::lists::count(sessions, was_continued())
        &&& self.watchdog_stops == crate::lists::count(sessions, was_cut_off())
        &&& self.transcribed == crate::lists::count(sessions, was_transcribed())
        &&& self.transcription_failures == crate::lists::count(sessions, failed_to_transcribe())
        &&& self.partial_sessions == crate::lists::count(sessions, was_partial())
    }
}

fn tally(sessions: &[SessionRecord]) -> (result: Tally)
    ensures
        result.counts(sessions@),
{
    let mut tally = Tally {
        continued: 0,
        watchdog_stops: 0,
        transcribed: 0,
        transcription_failures: 0,
        partial_sessions: 0,
    };
    let mut i: usize = 0;
    while i < sessions.len()
        invariant
            i <= sessions.len(),
            tally.counts(sessions@.take(i as int)),
        decreases sessions.len() - i,
    {
        let session = &sessions[i];
        proof {
            crate::lists::lemma_count_one_more(sessions@, was_continued(), i as int);
            crate::lists::lemma_count_one_more(sessions@, was_cut_off(), i as int);
            crate::lists::lemma_count_one_more(sessions@, was_transcribed(), i as int);
            crate::lists::lemma_count_one_more(sessions@, failed_to_transcribe(), i as int);
            crate::lists::lemma_count_one_more(sessions@, was_partial(), i as int);
        }
        if session.continuations > 0 {
            tally.continued += 1;
        }
        if session.hit_watchdog() {
            tally.watchdog_stops += 1;
        }
        if session.outcome == Outcome::Partial {
            tally.partial_sessions += 1;
        }
        match &session.transcript {
            Some(transcript) => {
                if transcript.error.is_some() {
                    tally.transcription_failures += 1;
                } else {
                    tally.transcribed += 1;
                }
            },
            None => {},
        }
        i += 1;
    }
    assert(sessions@.take(i as int) =~= sessions@);
    tally
}

fn collect_delays(segments: &Vec<Segment>, out: &mut Vec<u64>)
    ensures
        final(out)@ == old(out)@ + crate::lists::gathered(segments@, delay_rule()),
{
    let ghost before = out@;
    let mut i: usize = 0;
    assert(before + crate::lists::gathered(segments@.take(0), delay_rule()) =~= before);
    while i < segments.len()
        invariant
            i <= segments.len(),
            out@ == before + crate::lists::gathered(segments@.take(i as int), delay_rule()),
        decreases segments.len() - i,
    {
        proof {
            crate::lists::lemma_gathered_one_more(segments@, delay_rule(), i as int);
        }
        match segments[i].resumed_after_ms {
            Some(delay) => out.push(delay),
            None => {},
        }
        assert(out@ =~= before + crate::lists::gathered(segments@.take(i + 1), delay_rule()));
        i += 1;
    }
    assert(segments@.take(i as int) =~= segments@);
}

fn collect_speech(segments: &Vec<Segment>, out: &mut Vec<u32>)
    ensures
        final(out)@ == old(out)@ + crate::lists::gathered(segments@, speech_rule()),
{
    let ghost before = out@;
    let mut i: usize = 0;
    assert(before + crate::lists::gathered(segments@.take(0), speech_rule()) =~= before);
    while i < segments.len()
        invariant
            i <= segments.len(),
            out@ == before + crate::lists::gathered(segments@.take(i as int), speech_rule()),
        decreases segments.len() - i,
    {
        proof {
            crate::lists::lemma_gathered_one_more(segments@, speech_rule(), i as int);
        }
        if segments[i].index == 0 && segments[i].pre_roll_ms > 0 {
            out.push(segments[i].speech_in_pre_roll_ms);
        }
        assert(out@ =~= before + crate::lists::gathered(segments@.take(i + 1), speech_rule()));
        i += 1;
    }
    assert(segments@.take(i as int) =~= segments@);
}

fn count_failures(sinks: &Vec<SinkRecord>) -> (result: usize)
    ensures
        result == crate::lists::count(sinks@, sink_failed()),
{
    let mut failed: usize = 0;
    let mut i: usize = 0;
    while i < sinks.len()
        invariant
            i <= sinks.len(),
            failed == crate::lists::count(sinks@.take(i as int), sink_failed()),
        decreases sinks.len() - i,
    {
        proof {
            crate::lists::lemma_count_one_more(sinks@, sink_failed(), i as int);
        }
        match sinks[i].outcome {
            SinkOutcome::Failed { .. } => {
                failed += 1;
            },
            _ => {},
        }
        i += 1;
    }
    assert(sinks@.take(i as int) =~= sinks@);
    failed
}

impl Summary {
    /// Summarise a corpus of recordings.
    pub fn from_sessions(sessions: &[SessionRecord]) -> (result: Self)
        requires
            sum(durations(sessions@)) <= u64::MAX,
            runs(sessions@) <= usize::MAX,
        ensures
            result.sessions == sessions@.len(),
            result.total_audio_ms == sum(durations(sessions@)),
            result.median_duration_ms == median_of(durations(sessions@)),
            result.longest_ms == largest(durations(sessions@)),
            result.continued == crate::lists::count(sessions@, was_continued()),
            result.resume_delays_ms@ == crate::lists::ascending(
                crate::lists::gathered(sessions@, session_delays()),
            ),
            result.pre_roll_speech_ms@ == crate::lists::ascending(
                crate::lists::gathered(sessions@, session_speech()),
            ),
            result.configured_pre_roll_ms == last_pre_roll(sessions@),
            result.watchdog_stops == crate::lists::count(sessions@, was_cut_off()),
            result.transcribed == crate::lists::count(sessions@, was_transcribed()),
            result.transcription_failures == crate::lists::count(
                sessions@,
                failed_to_transcribe(),
            ),
            result.median_transcription_ms == median_of(
                crate::lists::gathered(sessions@, session_latency()),
            ),
            result.sink_runs == runs(sessions@),
            result.sink_failures == failures(sessions@),
            result.partial_sessions == crate::lists::count(sessions@, was_partial()),
    {
        let tallied = tally(sessions);
        let ghost lengths = durations(sessions@);
        let mut total_audio_ms: u64 = 0;
        let mut longest_ms: u64 = 0;
        let mut all_durations: Vec<u64> = Vec::new();
        let mut latencies: Vec<u64> = Vec::new();
        let mut delays: Vec<u64> = Vec::new();
        let mut speech: Vec<u32> = Vec::new();
        let mut configured_pre_roll_ms: Option<u32> = None;
        let mut sink_runs: usize = 0;
        let mut sink_failures: usize = 0;
        let mut i: usize = 0;
        while i < sessions.len()
            invariant
                i <= sessions.len(),
                lengths == durations(sessions@),
                sum(lengths) <= u64::MAX,
                runs(sessions@) <= usize::MAX,
                total_audio_ms == sum(lengths.take(i as int)),
                longest_ms == largest(lengths.take(i as int)),
                all_durations@ == lengths.take(i as int),
                latencies@ == crate::lists::gathered(sessions@.take(i as int), session_latency()),
                delays@ == crate::lists::gathered(sessions@.take(i as int), session_delays()),
                speech@ == crate::lists::gathered(sessions@.take(i as int), session_speech()),
                configured_pre_roll_ms == last_pre_roll(sessions@.take(i as int)),
                sink_runs == runs(sessions@.take(i as int)),
                sink_failures == failures(sessions@.take(i as int)),
            decreases sessions.len() - i,
        {
            let session = &sessions[i];
            proof {
                let next = sessions@.take(i + 1);
                assert(next.drop_last() =~= sessions@.take(i as int));
                assert(next.last() == sessions@[i as int]);
                assert(lengths.take(i + 1).drop_last() =~= lengths.take(i as int));
                assert(lengths.take(i + 1).last() == session.audio.duration_ms);
                lemma_sum_ascends(lengths, i + 1);
                lemma_runs_ascend(sessions@, i + 1);
                lemma_runs_ascend(sessions@, i as int);
                crate::lists::lemma_gathered_one_more(sessions@, session_latency(), i as int);
                crate::lists::lemma_gathered_one_more(sessions@, session_delays(), i as int);
                crate::lists::lemma_gathered_one_more(sessions@, session_speech(), i as int);
            }
            total_audio_ms += session.audio.duration_ms;
            if session.audio.duration_ms > longest_ms {
                longest_ms = session.audio.duration_ms;
            }
            all_durations.push(session.audio.duration_ms);
            assert(all_durations@ =~= lengths.take(i + 1));
            collect_delays(&session.segments, &mut delays);
            collect_speech(&session.segments, &mut speech);
            if session.capture.configured_pre_roll_ms > 0 {
                configured_pre_roll_ms = Some(session.capture.configured_pre_roll_ms);
            }
            let ghost before = latencies@;
            match &session.transcript {
                Some(transcript) => {
                    if transcript.error.is_none() {
                        latencies.push(transcript.latency_ms);
                    }
                },
                None => {},
            }
            assert(latencies@ =~= before + session_latency()(sessions@[i as int]));
            sink_runs = sink_runs + session.sinks.len();
            sink_failures = sink_failures + count_failures(&session.sinks);
            i += 1;
        }
        proof {
            assert(sessions@.take(i as int) =~= sessions@);
            assert(lengths.take(i as int) =~= lengths);
        }
        Summary {
            sessions: sessions.len(),
            total_audio_ms,
            median_duration_ms: median(&all_durations),
            longest_ms,
            continued: tallied.continued,
            resume_delays_ms: sorted(&delays),
            pre_roll_speech_ms: sorted(&speech),
            configured_pre_roll_ms,
            watchdog_stops: tallied.watchdog_stops,
            transcribed: tallied.transcribed,
            transcription_failures: tallied.transcription_failures,
            median_transcription_ms: median(&latencies),
            sink_runs,
            sink_failures,
            partial_sessions: tallied.partial_sessions,
        }
    }

    /// The 90th percentile of how long users waited before continuing.
    ///
    /// The percentile rather than the maximum: one continuation after a phone call should not
    /// push the recommendation to thirty seconds.
    pub fn resume_delay_p90(&self) -> (result: Option<u64>)
        ensures
            result == percentile_of(self.resume_delays_ms@, 90),
            self.resume_delays_ms@.len() > 0 ==> result == Some(
                self.resume_delays_ms@[self.resume_delays_ms@.len() as int * 9 / 10],
            ),
    {
        percentile(&self.resume_delays_ms, 90)
    }

    /// The 90th percentile of how much speech the pre-roll window held.
    pub fn pre_roll_speech_p90(&self) -> (result: Option<u32>)
        ensures
            result == percentile_of(self.pre_roll_speech_ms@, 90),
            self.pre_roll_speech_ms@.len() > 0 ==> result == Some(
                self.pre_roll_speech_ms@[self.pre_roll_speech_ms@.len() as int * 9 / 10],
            ),
    {
        percentile(&self.pre_roll_speech_ms, 90)
    }

    /// What the numbers suggest changing.
    ///
    /// Deliberately conservative: it stays quiet until there is enough data to mean anything,
    /// because advice from four recordings is noise wearing a suit.
    pub fn advice(&self) -> (result: Vec<Advice>)
        ensures
            advice_views(result@) == recommended(*self),
    {
        let mut advice: Vec<Advice> = Vec::new();
        assert(advice_views(advice@) =~= Seq::<(Seq<char>, Seq<char>)>::empty());
        if self.sessions < 10 {
            return advice;
        }
        self.pre_roll_advice(&mut advice);
        let ghost first = advice_views(advice@);
        match self.resume_delay_p90() {
            Some(p90) => {
                if self.resume_delays_ms.len() >= 5 {
                    let mut message = "continuations arrive up to ".to_owned();
                    message.append(decimal_text(p90).as_str());
                    message.append("ms after release (90th percentile of ");
                    message.append(decimal_text(self.resume_delays_ms.len() as u64).as_str());
                    message.append(") — a cooldown_ms comfortably above that catches them all");
                    push_advice(&mut advice, "session.cooldown_ms", message);
                }
            },
            None => {},
        }
        let ghost second = advice_views(advice@);
        if self.watchdog_stops as u128 * 10 >= self.sessions as u128 {
            let mut message = decimal_text(self.watchdog_stops as u64);
            message.append(" of ");
            message.append(decimal_text(self.sessions as u64).as_str());
            message.append(
                " recordings were cut off by the watchdog — the release keybind is not firing reliably; try releasing the key before the modifier, or trigger = \"toggle\"",
            );
            push_advice(&mut advice, "keybind", message);
        }
        let ghost third = advice_views(advice@);
        if self.sink_failures as u128 * 5 >= self.sink_runs as u128 && self.sink_runs >= 10 {
            let mut message = decimal_text(self.sink_failures as u64);
            message.append(" of ");
            message.append(decimal_text(self.sink_runs as u64).as_str());
            message.append(" callback runs failed — check the daemon log for which");
            push_advice(&mut advice, "sinks", message);
        }
        proof {
            assert(first =~= pre_roll_recommendation(*self));
            assert(second =~= first + cooldown_recommendation(*self));
            assert(third =~= second + keybind_recommendation(*self));
            assert(advice_views(advice@) =~= third + sink_recommendation(*self));
        }
        advice
    }

    fn pre_roll_advice(&self, advice: &mut Vec<Advice>)
        ensures
            advice_views(final(advice)@) == advice_views(old(advice)@) + pre_roll_recommendation(
                *self,
            ),
    {
        let ghost before = advice_views(advice@);
        let p90 = self.pre_roll_speech_p90();
        match (p90, self.configured_pre_roll_ms) {
            (Some(p90), Some(configured)) => {
                // Speech filling most of the window means the window is the limit, and
                // whatever was said before it is already lost.
                if p90 as u64 * 10 >= configured as u64 * 9 {
                    let mut message = "speech regularly fills the whole ".to_owned();
                    message.append(decimal_text(configured as u64).as_str());
                    message.append("ms pre-roll window (90th percentile ");
                    message.append(decimal_text(p90 as u64).as_str());
                    message.append("ms) — words are probably still being clipped; try ");
                    message.append(decimal_text(configured as u64 * 2).as_str());
                    message.append("ms");
                    push_advice(advice, "capture.pre_roll_ms", message);
                } else if p90 == 0 && self.pre_roll_speech_ms.len() >= 10 {
                    let mut message = "no speech has ever landed in the ".to_owned();
                    message.append(decimal_text(configured as u64).as_str());
                    message.append(
                        "ms pre-roll window — it is only costing memory; try a smaller value or mode = \"warm\"",
                    );
                    push_advice(advice, "capture.pre_roll_ms", message);
                }
            },
            _ => {},
        }
        assert(advice_views(advice@) =~= before + pre_roll_recommendation(*self));
    }
}

fn push_advice(advice: &mut Vec<Advice>, setting: &'static str, message: String)
    ensures
        advice_views(final(advice)@) == advice_views(old(advice)@).push((setting@, message@)),
{
    let ghost before = advice_views(advice@);
    advice.push(Advice { setting, message });
    assert(advice_views(advice@) =~= before.push((setting@, message@)));
}

pub open spec fn pre_roll_recommendation(s: Summary) -> Seq<(Seq<char>, Seq<char>)> {
    match (percentile_of(s.pre_roll_speech_ms@, 90), s.configured_pre_roll_ms) {
        (Some(p90), Some(configured)) => if p90 * 10 >= configured * 9 {
            seq![
                (
                    "capture.pre_roll_ms"@,
                    "speech regularly fills the whole "@ + crate::text::decimal(configured as nat)
                        + "ms pre-roll window (90th percentile "@ + crate::text::decimal(p90 as nat)
                        + "ms) — words are probably still being clipped; try "@
                        + crate::text::decimal((configured * 2) as nat) + "ms"@,
                ),
            ]
        } else if p90 == 0 && s.pre_roll_speech_ms@.len() >= 10 {
            seq![
                (
                    "capture.pre_roll_ms"@,
                    "no speech has ever landed in the "@ + crate::text::decimal(configured as nat)
                        + "ms pre-roll window — it is only costing memory; try a smaller value or mode = \"warm\""@,
                ),
            ]
        } else {
            Seq::empty()
        },
        _ => Seq::empty(),
    }
}

pub open spec fn cooldown_recommendation(s: Summary) -> Seq<(Seq<char>, Seq<char>)> {
    match percentile_of(s.resume_delays_ms@, 90) {
        Some(p90) => if s.resume_delays_ms@.len() >= 5 {
            seq![
                (
                    "session.cooldown_ms"@,
                    "continuations arrive up to "@ + crate::text::decimal(p90 as nat)
                        + "ms after release (90th percentile of "@ + crate::text::decimal(
                        s.resume_delays_ms@.len(),
                    ) + ") — a cooldown_ms comfortably above that catches them all"@,
                ),
            ]
        } else {
            Seq::empty()
        },
        None => Seq::empty(),
    }
}

pub open spec fn keybind_recommendation(s: Summary) -> Seq<(Seq<char>, Seq<char>)> {
    if s.watchdog_stops * 10 >= s.sessions {
        seq![
            (
                "keybind"@,
                crate::text::decimal(s.watchdog_stops as nat) + " of "@ + crate::text::decimal(
                    s.sessions as nat,
                )
                    + " recordings were cut off by the watchdog — the release keybind is not firing reliably; try releasing the key before the modifier, or trigger = \"toggle\""@,
            ),
        ]
    } else {
        Seq::empty()
    }
}

pub open spec fn sink_recommendation(s: Summary) -> Seq<(Seq<char>, Seq<char>)> {
    if s.sink_failures * 5 >= s.sink_runs && s.sink_runs >= 10 {
        seq![
            (
                "sinks"@,
                crate::text::decimal(s.sink_failures as nat) + " of "@ + crate::text::decimal(
                    s.sink_runs as nat,
                ) + " callback runs failed — check the daemon log for which"@,
            ),
        ]
    } else {
        Seq::empty()
    }
}

/// What the numbers suggest changing, and why.
pub open spec fn recommended(s: Summary) -> Seq<(Seq<char>, Seq<char>)> {
    if s.sessions < 10 {
        Seq::empty()
    } else {
        pre_roll_recommendation(s) + cooldown_recommendation(s) + keybind_recommendation(s)
            + sink_recommendation(s)
    }
}

fn median(values: &Vec<u64>) -> (result: u64)
    ensures
        result == median_of(values@),
{
    if values.len() == 0 {
        return 0;
    }
    let ordered = sorted(values);
    ordered[ordered.len() / 2]
}

/// The `p`th percentile of a sorted list.
pub open spec fn percentile_of<T>(sorted: Seq<T>, p: int) -> Option<T> {
    if sorted.len() == 0 {
        None
    } else {
        let index = (sorted.len() * p) / 100;
        Some(sorted[if index < sorted.len() - 1 { index } else { sorted.len() - 1 }])
    }
}

fn percentile<T: Copy>(sorted: &Vec<T>, p: usize) -> (result: Option<T>)
    requires
        p <= 100,
    ensures
        result == percentile_of(sorted@, p as int),
{
    if sorted.len() == 0 {
        return None;
    }
    proof {
        let n = sorted.len() as int;
        assert(0 <= n * p <= n * 100) by (nonlinear_arith)
            requires
                0 <= n,
                0 <= p <= 100,
        ;
    }
    let index: u128 = sorted.len() as u128 * p as u128 / 100;
    let last: usize = sorted.len() - 1;
    let at: usize = if index < last as u128 {
        index as usize
    } else {
        last
    };
    Some(sorted[at])
}

/// Whether a session ended for a reason worth mentioning in a summary.
pub fn notable(reason: StopReason) -> (result: bool)
    ensures
        result == (reason != StopReason::Released),
{
    match reason {
        StopReason::Released => false,
        _ => true,
    }
}

/// Advice stays quiet until there is enough data to mean anything.
pub proof fn law_advice_needs_data(s: Summary)
    requires
        s.sessions < 10,
    ensures
        recommended(s).len() == 0,
{
}

/// The 90th percentile ignores one outlier: with at least eleven measurements, all but the
/// largest of which are at most `bound`, it is at most `bound`.
pub proof fn law_one_outlier_does_not_move_the_percentile(delays: Seq<u64>, bound: u64)
    requires
        delays.len() >= 11,
        forall|i: int, j: int|
            0 <= i <= j < delays.len() ==> #[trigger] delays[i] <= #[trigger] delays[j],
        delays[delays.len() - 2] <= bound,
    ensures
        percentile_of(delays, 90)->0 <= bound,
{
    let n = delays.len() as int;
    assert((n * 90) / 100 <= n - 2);
}

/// The order of the sessions does not matter: whichever way the same sessions are listed, they
/// come to the same summary. Only the configured pre-roll, which is that of the most recent
/// session, can differ.
pub proof fn law_the_order_of_sessions_does_not_matter(p: Seq<SessionRecord>, q: Seq<SessionRecord>)
    requires
        p.to_multiset() == q.to_multiset(),
    ensures
        p.len() == q.len(),
        sum(durations(p)) == sum(durations(q)),
        median_of(durations(p)) == median_of(durations(q)),
        largest(durations(p)) == largest(durations(q)),
        crate::lists::count(p, was_continued()) == crate::lists::count(q, was_continued()),
        crate::lists::ascending(crate::lists::gathered(p, session_delays()))
            == crate::lists::ascending(crate::lists::gathered(q, session_delays())),
        crate::lists::ascending(crate::lists::gathered(p, session_speech()))
            == crate::lists::ascending(crate::lists::gathered(q, session_speech())),
        crate::lists::count(p, was_cut_off()) == crate::lists::count(q, was_cut_off()),
        crate::lists::count(p, was_transcribed()) == crate::lists::count(q, was_transcribed()),
        crate::lists::count(p, failed_to_transcribe()) == crate::lists::count(
            q,
            failed_to_transcribe(),
        ),
        median_of(crate::lists::gathered(p, session_latency())) == median_of(
            crate::lists::gathered(q, session_latency()),
        ),
        runs(p) == runs(q),
        failures(p) == failures(q),
        crate::lists::count(p, was_partial()) == crate::lists::count(q, was_partial()),
{
    vstd::seq_lib::to_multiset_len(p);
    vstd::seq_lib::to_multiset_len(q);
    crate::lists::lemma_count_in_any_order(p, q, was_continued());
    crate::lists::lemma_count_in_any_order(p, q, was_cut_off());
    crate::lists::lemma_count_in_any_order(p, q, was_transcribed());
    crate::lists::lemma_count_in_any_order(p, q, failed_to_transcribe());
    crate::lists::lemma_count_in_any_order(p, q, was_partial());
    crate::lists::lemma_gathered_in_any_order(p, q, session_delays());
    crate::lists::lemma_gathered_in_any_order(p, q, session_speech());
    crate::lists::lemma_gathered_in_any_order(p, q, session_latency());
    crate::lists::lemma_ascending_in_any_order(
        crate::lists::gathered(p, session_delays()),
        crate::lists::gathered(q, session_delays()),
    );
    crate::lists::lemma_ascending_in_any_order(
        crate::lists::gathered(p, session_speech()),
        crate::lists::gathered(q, session_speech()),
    );
    crate::lists::lemma_ascending_in_any_order(
        crate::lists::gathered(p, session_latency()),
        crate::lists::gathered(q, session_latency()),
    );
    let length = |s: SessionRecord| seq![s.audio.duration_ms];
    lemma_durations_are_gathered(p);
    lemma_durations_are_gathered(q);
    crate::lists::lemma_gathered_in_any_order(p, q, length);
    crate::lists::lemma_ascending_in_any_order(durations(p), durations(q));
    let itself = |value: u64| value as int;
    lemma_sum_is_a_weight(durations(p));
    lemma_sum_is_a_weight(durations(q));
    crate::lists::lemma_weight_in_any_order(durations(p), durations(q), itself);
    lemma_largest_in_any_order(durations(p), durations(q));
    lemma_callbacks_are_weights(p);
    lemma_callbacks_are_weights(q);
    crate::lists::lemma_weight_in_any_order(p, q, |s: SessionRecord| s.sinks@.len() as int);
    crate::lists::lemma_weight_in_any_order(
        p,
        q,
        |s: SessionRecord| crate::lists::count(s.sinks@, sink_failed()) as int,
    );
}

/// No sessions come to an empty summary.
pub proof fn law_no_sessions_sum_to_nothing()
    ensures
        ({
            let none = Seq::<SessionRecord>::empty();
            &&& sum(durations(none)) == 0
            &&& median_of(durations(none)) == 0
            &&& largest(durations(none)) == 0
            &&& crate::lists::count(none, was_continued()) == 0
            &&& crate::lists::ascending(crate::lists::gathered(none, session_delays())).len() == 0
            &&& crate::lists::ascending(crate::lists::gathered(none, session_speech())).len() == 0
            &&& last_pre_roll(none) is None
            &&& crate::lists::count(none, was_cut_off()) == 0
            &&& crate::lists::count(none, was_transcribed()) == 0
            &&& crate::lists::count(none, failed_to_transcribe()) == 0
            &&& median_of(crate::lists::gathered(none, session_latency())) == 0
            &&& runs(none) == 0
            &&& failures(none) == 0
            &&& crate::lists::count(none, was_partial()) == 0
        }),
{
    let none = Seq::<SessionRecord>::empty();
    crate::lists::lemma_ascending(crate::lists::gathered(none, session_delays()));
    crate::lists::lemma_ascending(crate::lists::gathered(none, session_speech()));
}

proof fn lemma_durations_are_gathered(sessions: Seq<SessionRecord>)
    ensures
        durations(sessions) == crate::lists::gathered(
            sessions,
            |s: SessionRecord| seq![s.audio.duration_ms],
        ),
    decreases sessions.len(),
{
    if sessions.len() > 0 {
        let earlier = sessions.drop_last();
        lemma_durations_are_gathered(earlier);
        assert(durations(sessions) =~= durations(earlier) + seq![sessions.last().audio.duration_ms]);
    } else {
        assert(durations(sessions) =~= Seq::empty());
    }
}

proof fn lemma_sum_is_a_weight(values: Seq<u64>)
    ensures
        sum(values) == crate::lists::weight_of(values, |value: u64| value as int),
    decreases values.len(),
{
    if values.len() > 0 {
        lemma_sum_is_a_weight(values.drop_last());
    }
}

proof fn lemma_callbacks_are_weights(sessions: Seq<SessionRecord>)
    ensures
        runs(sessions) == crate::lists::weight_of(
            sessions,
            |s: SessionRecord| s.sinks@.len() as int,
        ),
        failures(sessions) == crate::lists::weight_of(
            sessions,
            |s: SessionRecord| crate::lists::count(s.sinks@, sink_failed()) as int,
        ),
    decreases sessions.len(),
{
    if sessions.len() > 0 {
        lemma_callbacks_are_weights(sessions.drop_last());
    }
}

/// The largest of a list is in it, unless it is empty, and nothing in it is larger.
proof fn lemma_largest(values: Seq<u64>)
    ensures
        values.len() == 0 ==> largest(values) == 0,
        values.len() > 0 ==> values.contains(largest(values)),
        forall|i: int| 0 <= i < values.len() ==> #[trigger] values[i] <= largest(values),
    decreases values.len(),
{
    if values.len() > 0 {
        let earlier = values.drop_last();
        lemma_largest(earlier);
        assert forall|i: int| 0 <= i < values.len() implies #[trigger] values[i] <= largest(
            values,
        ) by {
            if i < earlier.len() {
                assert(values[i] == earlier[i]);
            }
        }
        if largest(earlier) >= values.last() && earlier.len() > 0 {
            let i = earlier.index_of(largest(earlier));
            assert(values[i] == largest(values));
        } else {
            assert(values[values.len() - 1] == largest(values));
        }
    }
}

proof fn lemma_largest_in_any_order(values: Seq<u64>, others: Seq<u64>)
    requires
        values.to_multiset() == others.to_multiset(),
    ensures
        largest(values) == largest(others),
{
    lemma_largest(values);
    lemma_largest(others);
    vstd::seq_lib::to_multiset_len(values);
    vstd::seq_lib::to_multiset_len(others);
    vstd::seq_lib::to_multiset_contains(values, largest(values));
    vstd::seq_lib::to_multiset_contains(others, largest(values));
    vstd::seq_lib::to_multiset_contains(values, largest(others));
    vstd::seq_lib::to_multiset_contains(others, largest(others));
    if values.len() > 0 {
        let i = others.index_of(largest(values));
        let j = values.index_of(largest(others));
        assert(others[i] == largest(values));
        assert(values[j] == largest(others));
    }
}

// ── what the numbers mean ───────────────────────────────────────────────────

proof fn lemma_count_front<T>(values: Seq<T>, condition: spec_fn(T) -> bool, n: int)
    requires
        0 <= n <= values.len(),
        forall|i: int| 0 <= i < n ==> condition(#[trigger] values[i]),
    ensures
        crate::lists::count(values, condition) >= n,
    decreases values.len(),
{
    if values.len() > 0 {
        let shorter = values.drop_last();
        assert(forall|i: int| 0 <= i < shorter.len() ==> shorter[i] == values[i]);
        if n == values.len() {
            lemma_count_front(shorter, condition, n - 1);
            assert(condition(values[n - 1]));
        } else {
            lemma_count_front(shorter, condition, n);
        }
    }
}

proof fn lemma_count_back<T>(values: Seq<T>, condition: spec_fn(T) -> bool, from: int)
    requires
        0 <= from <= values.len(),
        forall|i: int| from <= i < values.len() ==> condition(#[trigger] values[i]),
    ensures
        crate::lists::count(values, condition) >= values.len() - from,
    decreases values.len(),
{
    if from < values.len() {
        let shorter = values.drop_last();
        assert(forall|i: int| 0 <= i < shorter.len() ==> shorter[i] == values[i]);
        lemma_count_back(shorter, condition, from);
        assert(condition(values[values.len() - 1]));
    }
}

/// The 90th percentile is one of the measurements, at least nine tenths of them are no larger,
/// and at least a tenth no smaller.
pub proof fn law_nine_tenths_are_within_the_90th_percentile(values: Seq<u64>)
    requires
        values.len() > 0,
        forall|i: int, j: int|
            0 <= i <= j < values.len() ==> #[trigger] values[i] <= #[trigger] values[j],
    ensures
        percentile_of(values, 90) matches Some(p90) && values.contains(p90)
            && crate::lists::count(values, |value: u64| value <= p90) * 10 >= values.len() * 9
            && crate::lists::count(values, |value: u64| value >= p90) * 10 >= values.len(),
{
    let n = values.len() as int;
    let at = n * 9 / 10;
    assert((n * 90) / 100 == at);
    let p90 = values[at];
    assert(percentile_of(values, 90) == Some(p90));
    lemma_count_front(values, |value: u64| value <= p90, at + 1);
    lemma_count_back(values, |value: u64| value >= p90, at);
}

/// The same of the measurements of speech in the pre-roll window.
pub proof fn law_nine_tenths_of_the_speech_is_within_its_percentile(values: Seq<u32>)
    requires
        values.len() > 0,
        forall|i: int, j: int|
            0 <= i <= j < values.len() ==> #[trigger] values[i] <= #[trigger] values[j],
    ensures
        percentile_of(values, 90) matches Some(p90) && values.contains(p90)
            && crate::lists::count(values, |value: u32| value <= p90) * 10 >= values.len() * 9
            && crate::lists::count(values, |value: u32| value >= p90) * 10 >= values.len(),
{
    let n = values.len() as int;
    let at = n * 9 / 10;
    assert((n * 90) / 100 == at);
    let p90 = values[at];
    assert(percentile_of(values, 90) == Some(p90));
    lemma_count_front(values, |value: u32| value <= p90, at + 1);
    lemma_count_back(values, |value: u32| value >= p90, at);
}

/// The median is one of the measurements, more than half of them are no larger, and at least
/// half no smaller.
pub proof fn law_the_median_is_in_the_middle(values: Seq<u64>)
    requires
        values.len() > 0,
    ensures
        values.contains(median_of(values)),
        crate::lists::count(values, |value: u64| value <= median_of(values)) * 2 > values.len(),
        crate::lists::count(values, |value: u64| value >= median_of(values)) * 2 >= values.len(),
{
    let ordered = crate::lists::ascending(values);
    crate::lists::lemma_ascending(values);
    let n = values.len() as int;
    let median = ordered[n / 2];
    assert(ordered.contains(median));
    vstd::seq_lib::to_multiset_contains(ordered, median);
    vstd::seq_lib::to_multiset_contains(values, median);
    let within = |value: u64| value <= median_of(values);
    let beyond = |value: u64| value >= median_of(values);
    assert forall|i: int| 0 <= i < n / 2 + 1 implies within(#[trigger] ordered[i]) by {
        if i < n / 2 {
            assert(ordered[i].rank() <= ordered[n / 2].rank());
        }
    }
    assert forall|i: int| n / 2 <= i < n implies beyond(#[trigger] ordered[i]) by {
        if i > n / 2 {
            assert(ordered[n / 2].rank() <= ordered[i].rank());
        }
    }
    lemma_count_front(ordered, within, n / 2 + 1);
    lemma_count_back(ordered, beyond, n / 2);
    crate::lists::lemma_count_in_any_order(values, ordered, within);
    crate::lists::lemma_count_in_any_order(values, ordered, beyond);
}

/// Whether a list of recommendations speaks of a setting.
pub open spec fn speaks_of(advice: Seq<(Seq<char>, Seq<char>)>, setting: Seq<char>) -> bool {
    exists|i: int| 0 <= i < advice.len() && (#[trigger] advice[i]).0 == setting
}

/// Whether this is the one thing a list of recommendations says of a setting.
pub open spec fn says(
    advice: Seq<(Seq<char>, Seq<char>)>,
    setting: Seq<char>,
    message: Seq<char>,
) -> bool {
    &&& speaks_of(advice, setting)
    &&& forall|i: int|
        0 <= i < advice.len() && (#[trigger] advice[i]).0 == setting ==> advice[i].1 == message
}

proof fn lemma_settings_differ()
    ensures
        "capture.pre_roll_ms"@ != "session.cooldown_ms"@,
        "capture.pre_roll_ms"@ != "keybind"@,
        "capture.pre_roll_ms"@ != "sinks"@,
        "session.cooldown_ms"@ != "keybind"@,
        "session.cooldown_ms"@ != "sinks"@,
        "keybind"@ != "sinks"@,
{
    reveal_strlit("capture.pre_roll_ms");
    reveal_strlit("session.cooldown_ms");
    reveal_strlit("keybind");
    reveal_strlit("sinks");
    assert("capture.pre_roll_ms"@[0] == 'c');
    assert("session.cooldown_ms"@[0] == 's');
    assert("keybind"@.len() == 7);
    assert("sinks"@.len() == 5);
}

proof fn lemma_advice_parts(s: Summary)
    requires
        s.sessions >= 10,
    ensures
        ({
            let all = recommended(s);
            let a = pre_roll_recommendation(s);
            let b = cooldown_recommendation(s);
            let c = keybind_recommendation(s);
            let d = sink_recommendation(s);
            &&& a.len() == 1 ==> all[0] == a[0]
            &&& b.len() == 1 ==> all[a.len() as int] == b[0]
            &&& c.len() == 1 ==> all[(a.len() + b.len()) as int] == c[0]
            &&& d.len() == 1 ==> all[(a.len() + b.len() + c.len()) as int] == d[0]
            &&& all.len() == a.len() + b.len() + c.len() + d.len()
            &&& a.len() <= 1 && b.len() <= 1 && c.len() <= 1 && d.len() <= 1
            &&& forall|i: int|
                #![trigger all[i]]
                0 <= i < all.len() ==> {
                    ||| a.len() == 1 && all[i] == a[0]
                    ||| b.len() == 1 && all[i] == b[0]
                    ||| c.len() == 1 && all[i] == c[0]
                    ||| d.len() == 1 && all[i] == d[0]
                }
        }),
{
}

/// Advice on the cooldown is given exactly when there are ten sessions and five continuations
/// to go by, and the number it names is the 90th percentile of the delays: at least nine
/// tenths of them are no longer, and at least a tenth no shorter.
pub proof fn law_the_cooldown_advice_covers_nine_tenths(s: Summary)
    requires
        forall|i: int, j: int|
            0 <= i <= j < s.resume_delays_ms@.len() ==> #[trigger] s.resume_delays_ms@[i]
                <= #[trigger] s.resume_delays_ms@[j],
    ensures
        speaks_of(recommended(s), "session.cooldown_ms"@) <==> s.sessions >= 10
            && s.resume_delays_ms@.len() >= 5,
        s.sessions >= 10 && s.resume_delays_ms@.len() >= 5 ==> {
            let delays = s.resume_delays_ms@;
            let named = percentile_of(delays, 90)->0;
            &&& percentile_of(delays, 90) is Some
            &&& named == delays[delays.len() as int * 9 / 10]
            &&& says(
                recommended(s),
                "session.cooldown_ms"@,
                "continuations arrive up to "@ + crate::text::decimal(named as nat)
                    + "ms after release (90th percentile of "@ + crate::text::decimal(
                    delays.len(),
                ) + ") — a cooldown_ms comfortably above that catches them all"@,
            )
            &&& crate::lists::count(delays, |delay: u64| delay <= named) * 10 >= delays.len() * 9
            &&& crate::lists::count(delays, |delay: u64| delay >= named) * 10 >= delays.len()
        },
{
    lemma_settings_differ();
    let delays = s.resume_delays_ms@;
    if s.sessions >= 10 {
        lemma_advice_parts(s);
        let all = recommended(s);
        let before = pre_roll_recommendation(s).len() as int;
        if delays.len() >= 5 {
            law_nine_tenths_are_within_the_90th_percentile(delays);
            let n = delays.len() as int;
            assert((n * 90) / 100 == n * 9 / 10);
            assert(all[before].0 == "session.cooldown_ms"@);
        }
    }
}

/// Advice on the pre-roll is given exactly when there are ten sessions and speech fills nine
/// tenths of the window nine times in ten, and then it names twice the window; or when ten
/// measurements found none.
pub proof fn law_the_pre_roll_advice_follows_the_speech(s: Summary)
    requires
        s.pre_roll_speech_ms@.len() > 0,
        s.configured_pre_roll_ms is Some,
    ensures
        ({
            let speech = s.pre_roll_speech_ms@;
            let p90 = speech[speech.len() as int * 9 / 10];
            let configured = s.configured_pre_roll_ms->0;
            let full = p90 * 10 >= configured * 9;
            let unused = p90 == 0 && speech.len() >= 10;
            &&& speaks_of(recommended(s), "capture.pre_roll_ms"@) <==> s.sessions >= 10 && (full
                || unused)
            &&& s.sessions >= 10 && full ==> says(
                recommended(s),
                "capture.pre_roll_ms"@,
                "speech regularly fills the whole "@ + crate::text::decimal(configured as nat)
                    + "ms pre-roll window (90th percentile "@ + crate::text::decimal(p90 as nat)
                    + "ms) — words are probably still being clipped; try "@
                    + crate::text::decimal((2 * configured) as nat) + "ms"@,
            )
            &&& s.sessions >= 10 && !full && unused ==> says(
                recommended(s),
                "capture.pre_roll_ms"@,
                "no speech has ever landed in the "@ + crate::text::decimal(configured as nat)
                    + "ms pre-roll window — it is only costing memory; try a smaller value or mode = \"warm\""@,
            )
        }),
{
    lemma_settings_differ();
    let n = s.pre_roll_speech_ms@.len() as int;
    assert((n * 90) / 100 == n * 9 / 10);
    if s.sessions >= 10 {
        lemma_advice_parts(s);
        let all = recommended(s);
        if pre_roll_recommendation(s).len() == 1 {
            assert(all[0].0 == "capture.pre_roll_ms"@);
        }
    }
}

/// Without speech measurements, or without a pre-roll configured, the pre-roll is left alone.
pub proof fn law_the_pre_roll_advice_needs_measurements(s: Summary)
    requires
        s.pre_roll_speech_ms@.len() == 0 || s.configured_pre_roll_ms is None,
    ensures
        !speaks_of(recommended(s), "capture.pre_roll_ms"@),
{
    lemma_settings_differ();
    if s.sessions >= 10 {
        lemma_advice_parts(s);
    }
}

/// The keybind is blamed exactly when at least one in ten of ten or more recordings was cut
/// off by the watchdog, and callbacks are when at least one in five of ten or more runs failed.
/// Both say how many of how many.
pub proof fn law_one_in_ten_blames_the_keybind_and_one_in_five_the_callbacks(s: Summary)
    ensures
        speaks_of(recommended(s), "keybind"@) <==> s.sessions >= 10 && s.watchdog_stops * 10
            >= s.sessions,
        speaks_of(recommended(s), "sinks"@) <==> s.sessions >= 10 && s.sink_runs >= 10
            && s.sink_failures * 5 >= s.sink_runs,
        speaks_of(recommended(s), "keybind"@) ==> says(
            recommended(s),
            "keybind"@,
            crate::text::decimal(s.watchdog_stops as nat) + " of "@ + crate::text::decimal(
                s.sessions as nat,
            )
                + " recordings were cut off by the watchdog — the release keybind is not firing reliably; try releasing the key before the modifier, or trigger = \"toggle\""@,
        ),
        speaks_of(recommended(s), "sinks"@) ==> says(
            recommended(s),
            "sinks"@,
            crate::text::decimal(s.sink_failures as nat) + " of "@ + crate::text::decimal(
                s.sink_runs as nat,
            ) + " callback runs failed — check the daemon log for which"@,
        ),
{
    lemma_settings_differ();
    if s.sessions >= 10 {
        lemma_advice_parts(s);
        let all = recommended(s);
        let a = pre_roll_recommendation(s).len();
        let b = cooldown_recommendation(s).len();
        let c = keybind_recommendation(s).len();
        if c == 1 {
            assert(all[(a + b) as int].0 == "keybind"@);
        }
        if sink_recommendation(s).len() == 1 {
            assert(all[(a + b + c) as int].0 == "sinks"@);
        }
    }
}

/// One more session adds its own share to every number of a summary, and nothing else.
pub proof fn law_a_session_adds_its_share(p: Seq<SessionRecord>, s: SessionRecord)
    ensures
        ({
            let more = p.push(s);
            let cut_off = exists|k: int|
                0 <= k < s.segments@.len() && (#[trigger] s.segments@[k]).stop_reason
                    == StopReason::Watchdog;
            &&& sum(durations(more)) == sum(durations(p)) + s.audio.duration_ms
            &&& largest(durations(more)) == if s.audio.duration_ms > largest(durations(p)) {
                s.audio.duration_ms
            } else {
                largest(durations(p))
            }
            &&& durations(more) == durations(p).push(s.audio.duration_ms)
            &&& crate::lists::count(more, was_continued()) == crate::lists::count(
                p,
                was_continued(),
            ) + (if s.continuations > 0 {
                1nat
            } else {
                0
            })
            &&& crate::lists::count(more, was_cut_off()) == crate::lists::count(p, was_cut_off())
                + (if cut_off {
                1nat
            } else {
                0
            })
            &&& crate::lists::count(more, was_partial()) == crate::lists::count(p, was_partial())
                + (if s.outcome == Outcome::Partial {
                1nat
            } else {
                0
            })
            &&& crate::lists::count(more, was_transcribed()) == crate::lists::count(
                p,
                was_transcribed(),
            ) + (if s.transcript is Some && (s.transcript->0).error is None {
                1nat
            } else {
                0
            })
            &&& crate::lists::count(more, failed_to_transcribe()) == crate::lists::count(
                p,
                failed_to_transcribe(),
            ) + (if s.transcript is Some && (s.transcript->0).error is Some {
                1nat
            } else {
                0
            })
            &&& crate::lists::gathered(more, session_latency()) == if s.transcript is Some && (
            s.transcript->0).error is None {
                crate::lists::gathered(p, session_latency()).push((s.transcript->0).latency_ms)
            } else {
                crate::lists::gathered(p, session_latency())
            }
            &&& runs(more) == runs(p) + s.sinks@.len()
            &&& failures(more) == failures(p) + crate::pipeline::failures(s.sinks@)
            &&& last_pre_roll(more) == if s.capture.configured_pre_roll_ms > 0 {
                Some(s.capture.configured_pre_roll_ms)
            } else {
                last_pre_roll(p)
            }
            &&& crate::lists::gathered(more, session_delays()) == crate::lists::gathered(
                p,
                session_delays(),
            ) + crate::lists::gathered(s.segments@, delay_rule())
            &&& crate::lists::gathered(more, session_speech()) == crate::lists::gathered(
                p,
                session_speech(),
            ) + crate::lists::gathered(s.segments@, speech_rule())
        }),
{
    let more = p.push(s);
    assert(more.drop_last() =~= p);
    assert(durations(more) =~= durations(p).push(s.audio.duration_ms));
    assert(durations(more).drop_last() =~= durations(p));
    assert(sink_failed() =~= (|record: SinkRecord| record.outcome is Failed));
    let latencies = crate::lists::gathered(p, session_latency());
    if s.transcript is Some && (s.transcript->0).error is None {
        assert(latencies + seq![(s.transcript->0).latency_ms] =~= latencies.push(
            (s.transcript->0).latency_ms,
        ));
    } else {
        assert(latencies + Seq::<u64>::empty() =~= latencies);
    }
}

/// One more segment adds its delay if it is a continuation, and its speech measurement if it
/// is a first segment with a pre-roll.
pub proof fn law_a_segment_adds_its_measurements(segments: Seq<Segment>, segment: Segment)
    ensures
        ({
            let more = segments.push(segment);
            let delays = crate::lists::gathered(segments, delay_rule());
            let speech = crate::lists::gathered(segments, speech_rule());
            &&& crate::lists::gathered(more, delay_rule()) == if segment.resumed_after_ms is Some {
                delays.push(segment.resumed_after_ms->0)
            } else {
                delays
            }
            &&& crate::lists::gathered(more, speech_rule()) == if segment.index == 0
                && segment.pre_roll_ms > 0 {
                speech.push(segment.speech_in_pre_roll_ms)
            } else {
                speech
            }
        }),
{
    let more = segments.push(segment);
    assert(more.drop_last() =~= segments);
    let delays = crate::lists::gathered(segments, delay_rule());
    let speech = crate::lists::gathered(segments, speech_rule());
    if segment.resumed_after_ms is Some {
        assert(delays + seq![segment.resumed_after_ms->0] =~= delays.push(
            segment.resumed_after_ms->0,
        ));
    } else {
        assert(delays + Seq::<u64>::empty() =~= delays);
    }
    if segment.index == 0 && segment.pre_roll_ms > 0 {
        assert(speech + seq![segment.speech_in_pre_roll_ms] =~= speech.push(
            segment.speech_in_pre_roll_ms,
        ));
    } else {
        assert(speech + Seq::<u32>::empty() =~= speech);
    }
}

} // verus!
