//! Semantic checks that run after the configuration has parsed.
//!
//! The split matters: the type system catches "this should be a number", and this module
//! catches "this names a transcriber that does not exist", the errors that actually happen
//! in practice, and that a user cannot diagnose from a deserializer's message.

use vstd::prelude::*;

use super::adapter::SecretRef;
use super::capture::CaptureMode;
use super::error::Issue;
use super::keys::nearest_word;
use super::profile::Profile;
use super::runtime::{AudioConfig, LevelsConfig, PresenterConfig, PresenterKind};
use super::session::GapMode;
use super::sink::{SinkConfig, SinkKind};
use super::transcriber::{OpenAiTranscriber, TranscriberConfig, TranscriberKind};
use super::Config;
use crate::single::{Single, Threshold};
use crate::text::{
    concat, concat3, contains_name, contains_text, decimal_text, join, quote, same_text,
    starts_with,
};

verus! {

/// The outcome of checking a configuration.
#[derive(Debug, Clone, PartialEq, Eq)]
pub struct Report {
    /// Problems that make the configuration unusable.
    pub errors: Vec<Issue>,
    /// Things that are legal but probably not what was meant.
    pub warnings: Vec<Issue>,
}

/// What a report lists.
pub struct ReportView {
    pub errors: Seq<super::error::IssueView>,
    pub warnings: Seq<super::error::IssueView>,
}

impl View for Report {
    type V = ReportView;

    open spec fn view(&self) -> ReportView {
        ReportView {
            errors: super::error::views(self.errors@),
            warnings: super::error::views(self.warnings@),
        }
    }
}

impl ReportView {
    /// The report with more at its end.
    pub open spec fn plus(
        self,
        errors: Seq<super::error::IssueView>,
        warnings: Seq<super::error::IssueView>,
    ) -> ReportView {
        ReportView { errors: self.errors + errors, warnings: self.warnings + warnings }
    }
}

impl Default for Report {
    fn default() -> (result: Self)
        ensures
            result@.errors == Seq::<super::error::IssueView>::empty(),
            result@.warnings == Seq::<super::error::IssueView>::empty(),
    {
        let result = Report { errors: Vec::new(), warnings: Vec::new() };
        assert(result@.errors =~= Seq::<super::error::IssueView>::empty());
        assert(result@.warnings =~= Seq::<super::error::IssueView>::empty());
        result
    }
}

impl Report {
    fn error(&mut self, issue: Issue)
        ensures
            final(self)@ == old(self)@.plus(seq![issue@], Seq::empty()),
    {
        let ghost before = self@;
        self.errors.push(issue);
        assert(self@.errors =~= before.errors + seq![issue@]);
        assert(self@.warnings =~= before.warnings + Seq::<super::error::IssueView>::empty());
    }

    fn warn(&mut self, issue: Issue)
        ensures
            final(self)@ == old(self)@.plus(Seq::empty(), seq![issue@]),
    {
        let ghost before = self@;
        self.warnings.push(issue);
        assert(self@.errors =~= before.errors + Seq::<super::error::IssueView>::empty());
        assert(self@.warnings =~= before.warnings + seq![issue@]);
    }
}

/// One issue where a condition holds, none where it does not.
pub open spec fn when(
    condition: bool,
    issue: super::error::IssueView,
) -> Seq<super::error::IssueView> {
    if condition {
        seq![issue]
    } else {
        Seq::empty()
    }
}

// ── audio and levels ────────────────────────────────────────────────────────

/// Sample rates worth storing speech at. Anything else is either lossy for no benefit or
/// wasteful for no benefit.
pub open spec fn is_valid_rate(rate: u32) -> bool {
    ||| rate == 8_000
    ||| rate == 16_000
    ||| rate == 22_050
    ||| rate == 24_000
    ||| rate == 44_100
    ||| rate == 48_000
}

pub open spec fn audio_errors(audio: AudioConfig) -> Seq<super::error::IssueView> {
    when(
        !is_valid_rate(audio.sample_rate),
        super::error::hinted(
            "audio.sample_rate"@,
            crate::text::decimal(audio.sample_rate as nat) + " is not a supported rate"@,
            "one of [8000, 16000, 22050, 24000, 44100, 48000]"@,
        ),
    ) + when(
        audio.channels != 1 && audio.channels != 2,
        super::error::issue(
            "audio.channels"@,
            "must be 1 or 2, got "@ + crate::text::decimal(audio.channels as nat),
        ),
    )
}

pub open spec fn audio_warnings(audio: AudioConfig) -> Seq<super::error::IssueView> {
    when(
        audio.channels == 2,
        super::error::hinted(
            "audio.channels"@,
            "stereo doubles the file size and every speech model discards one channel"@,
            "use 1 unless something downstream genuinely needs two"@,
        ),
    )
}

fn check_audio(audio: &AudioConfig, report: &mut Report)
    ensures
        final(report)@ == old(report)@.plus(audio_errors(*audio), audio_warnings(*audio)),
{
    let ghost before = report@;
    let rate: u32 = audio.sample_rate;
    let valid = rate == 8_000 || rate == 16_000 || rate == 22_050 || rate == 24_000 || rate
        == 44_100 || rate == 48_000;
    if !valid {
        report.error(
            Issue::new(
                "audio.sample_rate".to_owned(),
                concat(decimal_text(rate as u64).as_str(), " is not a supported rate"),
            ).with_hint("one of [8000, 16000, 22050, 24000, 44100, 48000]".to_owned()),
        );
    }
    if audio.channels != 1 && audio.channels != 2 {
        report.error(
            Issue::new(
                "audio.channels".to_owned(),
                concat("must be 1 or 2, got ", decimal_text(audio.channels as u64).as_str()),
            ),
        );
    }
    if audio.channels == 2 {
        report.warn(
            Issue::new(
                "audio.channels".to_owned(),
                "stereo doubles the file size and every speech model discards one channel".to_owned(),
            ).with_hint("use 1 unless something downstream genuinely needs two".to_owned()),
        );
    }
    proof {
        let expected = before.plus(audio_errors(*audio), audio_warnings(*audio));
        assert(report@.errors =~= expected.errors);
        assert(report@.warnings =~= expected.warnings);
    }
}

/// A level above full scale.
pub open spec fn above_full_scale(path: Seq<char>, level: Threshold) -> Seq<
    super::error::IssueView,
> {
    when(
        (Single { bits: 0 }).below_spec(level.value),
        super::error::hinted(
            path,
            level.text@ + " is above full scale"@,
            "dBFS values are negative; -40 is a quiet voice, -6 is loud"@,
        ),
    )
}

pub open spec fn level_errors(levels: LevelsConfig) -> Seq<super::error::IssueView> {
    above_full_scale("levels.silence_dbfs"@, levels.silence_dbfs) + above_full_scale(
        "levels.too_quiet_dbfs"@,
        levels.too_quiet_dbfs,
    ) + above_full_scale("levels.speech_dbfs"@, levels.speech_dbfs) + when(
        levels.silence_dbfs.value.at_least_spec(levels.too_quiet_dbfs.value),
        super::error::hinted(
            "levels.silence_dbfs"@,
            "must be below levels.too_quiet_dbfs"@,
            "silence is quieter than merely too quiet"@,
        ),
    )
}

fn check_level(path: &str, level: &Threshold, report: &mut Report)
    ensures
        final(report)@ == old(report)@.plus(above_full_scale(path@, *level), Seq::empty()),
{
    let ghost before = report@;
    if (Single { bits: 0 }).below(level.value) {
        report.error(
            Issue::new(
                path.to_owned(),
                concat(level.text.as_str(), " is above full scale"),
            ).with_hint("dBFS values are negative; -40 is a quiet voice, -6 is loud".to_owned()),
        );
    }
    proof {
        let expected = before.plus(above_full_scale(path@, *level), Seq::empty());
        assert(report@.errors =~= expected.errors);
        assert(report@.warnings =~= expected.warnings);
    }
}

fn check_levels(levels: &LevelsConfig, report: &mut Report)
    ensures
        final(report)@ == old(report)@.plus(level_errors(*levels), Seq::empty()),
{
    let ghost before = report@;
    check_level("levels.silence_dbfs", &levels.silence_dbfs, report);
    check_level("levels.too_quiet_dbfs", &levels.too_quiet_dbfs, report);
    check_level("levels.speech_dbfs", &levels.speech_dbfs, report);
    if levels.silence_dbfs.value.at_least(levels.too_quiet_dbfs.value) {
        report.error(
            Issue::new(
                "levels.silence_dbfs".to_owned(),
                "must be below levels.too_quiet_dbfs".to_owned(),
            ).with_hint("silence is quieter than merely too quiet".to_owned()),
        );
    }
    proof {
        let expected = before.plus(level_errors(*levels), Seq::empty());
        assert(report@.errors =~= expected.errors);
        assert(report@.warnings =~= expected.warnings);
    }
}

// ── secrets and addresses ───────────────────────────────────────────────────

pub open spec fn secret_errors(path: Seq<char>, secret: SecretRef) -> Seq<super::error::IssueView> {
    match (secret.env, secret.command) {
        (None, None) => seq![
            super::error::hinted(
                path,
                "no source for the API key"@,
                "set `env = \"OPENAI_API_KEY\"` or `command = [\"pass\", \"show\", \"...\"]`"@,
            ),
        ],
        (Some(_), Some(_)) => Seq::empty(),
        (Some(name), None) => when(
            name@.len() == 0,
            super::error::issue(path + ".env"@, "is empty"@),
        ),
        (None, Some(command)) => when(
            command@.len() == 0,
            super::error::issue(path + ".command"@, "is empty"@),
        ),
    }
}

pub open spec fn secret_warnings(path: Seq<char>, secret: SecretRef) -> Seq<
    super::error::IssueView,
> {
    when(
        secret.env is Some && secret.command is Some,
        super::error::hinted(
            path,
            "both `env` and `command` are set; `env` wins"@,
            "remove whichever is not intended"@,
        ),
    )
}

fn check_secret(path: &str, secret: &SecretRef, report: &mut Report)
    ensures
        final(report)@ == old(report)@.plus(
            secret_errors(path@, *secret),
            secret_warnings(path@, *secret),
        ),
{
    let ghost before = report@;
    match (&secret.env, &secret.command) {
        (None, None) => {
            report.error(
                Issue::new(path.to_owned(), "no source for the API key".to_owned()).with_hint(
                    "set `env = \"OPENAI_API_KEY\"` or `command = [\"pass\", \"show\", \"...\"]`".to_owned(),
                ),
            );
        },
        (Some(_), Some(_)) => {
            report.warn(
                Issue::new(
                    path.to_owned(),
                    "both `env` and `command` are set; `env` wins".to_owned(),
                ).with_hint("remove whichever is not intended".to_owned()),
            );
        },
        (Some(name), None) => {
            if name.as_str().is_empty() {
                report.error(Issue::new(concat(path, ".env"), "is empty".to_owned()));
            }
        },
        (None, Some(command)) => {
            if command.len() == 0 {
                report.error(Issue::new(concat(path, ".command"), "is empty".to_owned()));
            }
        },
    }
    proof {
        let expected = before.plus(secret_errors(path@, *secret), secret_warnings(path@, *secret));
        assert(report@.errors =~= expected.errors);
        assert(report@.warnings =~= expected.warnings);
    }
}

/// Whether an address states that it is one of the web.
pub open spec fn has_scheme(url: Seq<char>) -> bool {
    "http://"@.is_prefix_of(url) || "https://"@.is_prefix_of(url)
}

pub open spec fn url_errors(path: Seq<char>, url: Seq<char>) -> Seq<super::error::IssueView> {
    when(
        !has_scheme(url),
        super::error::hinted(
            path,
            crate::text::quoted(url) + " is not an http(s) URL"@,
            "include the scheme, e.g. https://api.example.com/v1/transcribe"@,
        ),
    )
}

pub open spec fn url_warnings(path: Seq<char>, url: Seq<char>) -> Seq<super::error::IssueView> {
    when(
        "http://"@.is_prefix_of(url) && !crate::text::occurs(url, "://localhost"@)
            && !crate::text::occurs(url, "://127."@),
        super::error::issue(path, "sends audio over plain HTTP to a non-local host"@),
    )
}

fn check_url(path: &str, url: &str, report: &mut Report)
    ensures
        final(report)@ == old(report)@.plus(url_errors(path@, url@), url_warnings(path@, url@)),
{
    let ghost before = report@;
    if !(starts_with(url, "http://") || starts_with(url, "https://")) {
        report.error(
            Issue::new(
                path.to_owned(),
                concat(quote(url).as_str(), " is not an http(s) URL"),
            ).with_hint("include the scheme, e.g. https://api.example.com/v1/transcribe".to_owned()),
        );
    } else if starts_with(url, "http://") && !contains_text(url, "://localhost") && !contains_text(
        url,
        "://127.",
    ) {
        report.warn(
            Issue::new(
                path.to_owned(),
                "sends audio over plain HTTP to a non-local host".to_owned(),
            ),
        );
    }
    proof {
        let expected = before.plus(url_errors(path@, url@), url_warnings(path@, url@));
        assert(report@.errors =~= expected.errors);
        assert(report@.warnings =~= expected.warnings);
    }
}

// ── transcribers, sinks and presenters ──────────────────────────────────────

pub open spec fn transcriber_errors(name: Seq<char>, transcriber: TranscriberConfig) -> Seq<
    super::error::IssueView,
> {
    let base = "transcribers."@ + name;
    when(
        transcriber.timeout_ms == 0,
        super::error::issue(base + ".timeout_ms"@, "must be non-zero"@),
    ) + when(
        transcriber.retry.attempts == 0,
        super::error::hinted(
            base + ".retry.attempts"@,
            "must be at least 1"@,
            "1 means try once and do not retry"@,
        ),
    ) + (match transcriber.kind {
        TranscriberKind::Openai(openai) => openai_errors(base, openai),
        TranscriberKind::Http(http) => url_errors(base + ".url"@, http.url@),
        TranscriberKind::Command(command) => when(
            command.cmd@.len() == 0,
            super::error::issue(base + ".cmd"@, "is empty"@),
        ),
    })
}

pub open spec fn openai_errors(base: Seq<char>, openai: OpenAiTranscriber) -> Seq<
    super::error::IssueView,
> {
    secret_errors(base + ".api_key"@, openai.api_key) + url_errors(
        base + ".base_url"@,
        openai.base_url@,
    ) + (match openai.temperature {
        Some(temperature) => when(
            !is_temperature(temperature.value),
            super::error::issue(
                base + ".temperature"@,
                temperature.text@ + " is outside 0.0..=1.0"@,
            ),
        ),
        None => Seq::empty(),
    })
}

pub open spec fn openai_warnings(base: Seq<char>, openai: OpenAiTranscriber) -> Seq<
    super::error::IssueView,
> {
    secret_warnings(base + ".api_key"@, openai.api_key) + url_warnings(
        base + ".base_url"@,
        openai.base_url@,
    )
}

/// Whether a number lies between zero and one.
pub open spec fn is_temperature(value: Single) -> bool {
    value.at_least_spec(Single { bits: 0 }) && (Single {
        bits: crate::audio::level::FULL_SCALE,
    }).at_least_spec(value)
}

pub open spec fn transcriber_warnings(name: Seq<char>, transcriber: TranscriberConfig) -> Seq<
    super::error::IssueView,
> {
    let base = "transcribers."@ + name;
    match transcriber.kind {
        TranscriberKind::Openai(openai) => openai_warnings(base, openai),
        TranscriberKind::Http(http) => url_warnings(base + ".url"@, http.url@),
        TranscriberKind::Command(_) => Seq::empty(),
    }
}

fn check_openai(base: &str, openai: &OpenAiTranscriber, report: &mut Report)
    ensures
        final(report)@ == old(report)@.plus(
            openai_errors(base@, *openai),
            openai_warnings(base@, *openai),
        ),
{
    let ghost before = report@;
    check_secret(concat(base, ".api_key").as_str(), &openai.api_key, report);
    check_url(concat(base, ".base_url").as_str(), openai.base_url.as_str(), report);
    match &openai.temperature {
        Some(temperature) => {
            let zero = Single { bits: 0 };
            let one = Single { bits: crate::audio::level::FULL_SCALE };
            if !(temperature.value.at_least(zero) && one.at_least(temperature.value)) {
                report.error(
                    Issue::new(
                        concat(base, ".temperature"),
                        concat(temperature.text.as_str(), " is outside 0.0..=1.0"),
                    ),
                );
            }
        },
        None => {},
    }
    proof {
        let expected = before.plus(openai_errors(base@, *openai), openai_warnings(base@, *openai));
        assert(report@.errors =~= expected.errors);
        assert(report@.warnings =~= expected.warnings);
    }
}

fn check_transcriber(name: &str, transcriber: &TranscriberConfig, report: &mut Report)
    ensures
        final(report)@ == old(report)@.plus(
            transcriber_errors(name@, *transcriber),
            transcriber_warnings(name@, *transcriber),
        ),
{
    let ghost before = report@;
    let base = concat("transcribers.", name);
    if transcriber.timeout_ms == 0 {
        report.error(
            Issue::new(concat(base.as_str(), ".timeout_ms"), "must be non-zero".to_owned()),
        );
    }
    if transcriber.retry.attempts == 0 {
        report.error(
            Issue::new(
                concat(base.as_str(), ".retry.attempts"),
                "must be at least 1".to_owned(),
            ).with_hint("1 means try once and do not retry".to_owned()),
        );
    }
    match &transcriber.kind {
        TranscriberKind::Openai(openai) => {
            check_openai(base.as_str(), openai, report);
        },
        TranscriberKind::Http(http) => {
            check_url(concat(base.as_str(), ".url").as_str(), http.url.as_str(), report);
        },
        TranscriberKind::Command(command) => {
            if command.cmd.len() == 0 {
                report.error(Issue::new(concat(base.as_str(), ".cmd"), "is empty".to_owned()));
            }
        },
    }
    proof {
        let expected = before.plus(
            transcriber_errors(name@, *transcriber),
            transcriber_warnings(name@, *transcriber),
        );
        assert(report@.errors =~= expected.errors);
        assert(report@.warnings =~= expected.warnings);
    }
}

pub open spec fn sink_errors(name: Seq<char>, sink: SinkConfig) -> Seq<super::error::IssueView> {
    let base = "sinks."@ + name;
    when(
        sink.timeout_ms == 0,
        super::error::issue(base + ".timeout_ms"@, "must be non-zero"@),
    ) + when(
        sink.retry.attempts == 0,
        super::error::issue(base + ".retry.attempts"@, "must be at least 1"@),
    ) + (match sink.kind {
        SinkKind::Command(command) => when(
            command.cmd@.len() == 0,
            super::error::issue(base + ".cmd"@, "is empty"@),
        ),
        SinkKind::Http(http) => url_errors(base + ".url"@, http.url@),
        SinkKind::File(file) => when(
            file.path@.len() == 0,
            super::error::issue(base + ".path"@, "is empty"@),
        ),
        _ => Seq::empty(),
    })
}

pub open spec fn sink_warnings(name: Seq<char>, sink: SinkConfig) -> Seq<super::error::IssueView> {
    match sink.kind {
        SinkKind::Http(http) => url_warnings("sinks."@ + name + ".url"@, http.url@),
        _ => Seq::empty(),
    }
}

fn check_sink(name: &str, sink: &SinkConfig, report: &mut Report)
    ensures
        final(report)@ == old(report)@.plus(sink_errors(name@, *sink), sink_warnings(name@, *sink)),
{
    let ghost before = report@;
    let base = concat("sinks.", name);
    if sink.timeout_ms == 0 {
        report.error(
            Issue::new(concat(base.as_str(), ".timeout_ms"), "must be non-zero".to_owned()),
        );
    }
    if sink.retry.attempts == 0 {
        report.error(
            Issue::new(concat(base.as_str(), ".retry.attempts"), "must be at least 1".to_owned()),
        );
    }
    match &sink.kind {
        SinkKind::Command(command) => {
            if command.cmd.len() == 0 {
                report.error(Issue::new(concat(base.as_str(), ".cmd"), "is empty".to_owned()));
            }
        },
        SinkKind::Http(http) => {
            check_url(concat(base.as_str(), ".url").as_str(), http.url.as_str(), report);
        },
        SinkKind::File(file) => {
            if file.path.as_str().is_empty() {
                report.error(Issue::new(concat(base.as_str(), ".path"), "is empty".to_owned()));
            }
        },
        SinkKind::Clipboard(_) | SinkKind::Type(_) | SinkKind::Notify(_) => {},
    }
    proof {
        let expected = before.plus(sink_errors(name@, *sink), sink_warnings(name@, *sink));
        assert(report@.errors =~= expected.errors);
        assert(report@.warnings =~= expected.warnings);
    }
}

pub open spec fn presenter_errors(name: Seq<char>, presenter: PresenterConfig) -> Seq<
    super::error::IssueView,
> {
    match presenter.kind {
        PresenterKind::Command(command) => when(
            command.cmd@.len() == 0,
            super::error::issue("presenters."@ + name + ".cmd"@, "is empty"@),
        ),
        _ => Seq::empty(),
    }
}

/// A reference to something that is not defined, with the defined name it was probably meant
/// to be.
pub open spec fn missing(
    path: Seq<char>,
    what: Seq<char>,
    word: Seq<char>,
    defined: Seq<Seq<char>>,
) -> super::error::IssueView {
    let message = "no "@ + what + " named "@ + crate::text::quoted(word) + " is defined"@;
    match super::keys::nearest(word, defined) {
        Some(i) => super::error::hinted(
            path,
            message,
            "did you mean "@ + crate::text::quoted(defined[i]) + "?"@,
        ),
        None => super::error::issue(path, message),
    }
}

fn missing_issue(path: String, what: &str, word: &str, defined: &Vec<String>) -> (result: Issue)
    ensures
        result@ == missing(path@, what@, word@, crate::text::texts(defined@)),
{
    let mut message = concat3("no ", what, " named ");
    message.append(quote(word).as_str());
    message.append(" is defined");
    let found = Issue::new(path, message);
    match nearest_word(word, defined) {
        Some(i) => {
            let close = quote(defined[i].as_str());
            found.with_hint(concat3("did you mean ", close.as_str(), "?"))
        },
        None => found,
    }
}

pub open spec fn feedback_reference_errors(config: Config, name: Seq<char>) -> Seq<
    super::error::IssueView,
> {
    when(
        !crate::names::has_name(config.presenters@, name),
        missing(
            "feedback.presenters"@,
            "presenter"@,
            name,
            crate::names::names_of(config.presenters@),
        ),
    )
}

/// The rule that finds a feedback presenter that is not defined.
pub open spec fn feedback_rule(config: Config) -> spec_fn(String) -> Seq<super::error::IssueView> {
    |name: String| feedback_reference_errors(config, name@)
}

/// The rule that finds what is wrong with a presenter.
pub open spec fn presenter_rule() -> spec_fn((String, PresenterConfig)) -> Seq<
    super::error::IssueView,
> {
    |e: (String, PresenterConfig)| presenter_errors(e.0@, e.1)
}

pub open spec fn presenters_errors(config: Config) -> Seq<super::error::IssueView> {
    crate::lists::gathered(config.presenters@, presenter_rule()) + crate::lists::gathered(
        config.feedback.presenters@,
        feedback_rule(config),
    ) + when(
        config.feedback.enabled && config.feedback.level_interval_ms == 0,
        super::error::hinted(
            "feedback.level_interval_ms"@,
            "must be non-zero"@,
            "this throttles level events; 50 gives a smooth 20 per second"@,
        ),
    )
}

pub open spec fn presenters_warnings(config: Config) -> Seq<super::error::IssueView> {
    when(
        config.feedback.enabled && config.feedback.presenters@.len() == 0,
        super::error::hinted(
            "feedback.presenters"@,
            "is empty, so nothing will be shown"@,
            "add \"socket\" to make events readable by `voice-commander events --follow`"@,
        ),
    )
}

fn check_presenters(config: &Config, report: &mut Report)
    ensures
        final(report)@ == old(report)@.plus(
            presenters_errors(*config),
            presenters_warnings(*config),
        ),
{
    let ghost before = report@;
    let entries = config.presenters.entries();
    let mut i: usize = 0;
    assert(before.plus(crate::lists::gathered(entries@.take(0), presenter_rule()), Seq::empty()).errors
        =~= before.errors);
    assert(before.warnings + Seq::<super::error::IssueView>::empty() =~= before.warnings);
    while i < entries.len()
        invariant
            i <= entries.len(),
            report@.errors == before.errors + crate::lists::gathered(entries@.take(i as int), presenter_rule()),
            report@.warnings == before.warnings,
        decreases entries.len() - i,
    {
        proof {
            crate::lists::lemma_gathered_one_more(entries@, presenter_rule(), i as int);
        }
        match &entries[i].1.kind {
            PresenterKind::Command(command) => {
                if command.cmd.len() == 0 {
                    report.error(
                        Issue::new(
                            concat3("presenters.", entries[i].0.as_str(), ".cmd"),
                            "is empty".to_owned(),
                        ),
                    );
                }
            },
            PresenterKind::Socket(_) | PresenterKind::Notify(_) => {},
        }
        proof {
            assert(report@.errors =~= before.errors + crate::lists::gathered(
                entries@.take(i + 1),
                presenter_rule(),
            ));
            assert(report@.warnings =~= before.warnings);
        }
        i += 1;
    }
    assert(entries@.take(i as int) =~= config.presenters@);
    let ghost middle = report@;
    let wanted = &config.feedback.presenters;
    let defined = config.presenters.keys();
    let mut j: usize = 0;
    assert(middle.errors + crate::lists::gathered(wanted@.take(0), feedback_rule(*config)) =~= middle.errors);
    while j < wanted.len()
        invariant
            j <= wanted.len(),
            crate::text::texts(defined@) == crate::names::names_of(config.presenters@),
            report@.errors == middle.errors + crate::lists::gathered(
                wanted@.take(j as int),
                feedback_rule(*config),
            ),
            report@.warnings == middle.warnings,
        decreases wanted.len() - j,
    {
        proof {
            crate::lists::lemma_gathered_one_more(wanted@, feedback_rule(*config), j as int);
        }
        let name = wanted[j].as_str();
        if !config.presenters.contains_key(name) {
            report.error(
                missing_issue("feedback.presenters".to_owned(), "presenter", name, &defined),
            );
        }
        proof {
            assert(report@.errors =~= middle.errors + crate::lists::gathered(
                wanted@.take(j + 1),
                feedback_rule(*config),
            ));
            assert(report@.warnings =~= middle.warnings);
        }
        j += 1;
    }
    assert(wanted@.take(j as int) =~= config.feedback.presenters@);
    if config.feedback.enabled && config.feedback.presenters.len() == 0 {
        report.warn(
            Issue::new(
                "feedback.presenters".to_owned(),
                "is empty, so nothing will be shown".to_owned(),
            ).with_hint(
                "add \"socket\" to make events readable by `voice-commander events --follow`".to_owned(),
            ),
        );
    }
    if config.feedback.enabled && config.feedback.level_interval_ms == 0 {
        report.error(
            Issue::new(
                "feedback.level_interval_ms".to_owned(),
                "must be non-zero".to_owned(),
            ).with_hint("this throttles level events; 50 gives a smooth 20 per second".to_owned()),
        );
    }
    proof {
        let expected = before.plus(presenters_errors(*config), presenters_warnings(*config));
        assert(report@.errors =~= expected.errors);
        assert(report@.warnings =~= expected.warnings);
    }
}

// ── profiles ────────────────────────────────────────────────────────────────

pub open spec fn sink_reference_errors(config: Config, base: Seq<char>, name: Seq<char>) -> Seq<
    super::error::IssueView,
> {
    when(
        !crate::names::has_name(config.sinks@, name),
        missing(base + ".sinks"@, "sink"@, name, crate::names::names_of(config.sinks@)),
    )
}

/// The rule that finds a profile's sink that is not defined.
pub open spec fn sink_reference_rule(config: Config, base: Seq<char>) -> spec_fn(String) -> Seq<
    super::error::IssueView,
> {
    |name: String| sink_reference_errors(config, base, name@)
}

/// Sinks that are listed again after they were listed once.
pub open spec fn repeat_warnings(base: Seq<char>, sinks: Seq<String>) -> Seq<
    super::error::IssueView,
>
    decreases sinks.len(),
{
    if sinks.len() == 0 {
        Seq::empty()
    } else {
        repeat_warnings(base, sinks.drop_last()) + when(
            crate::text::texts(sinks.drop_last()).contains(sinks.last()@),
            super::error::issue(
                base + ".sinks"@,
                crate::text::quoted(sinks.last()@) + " is listed twice and will run twice"@,
            ),
        )
    }
}

pub open spec fn timing_errors(base: Seq<char>, profile: Profile) -> Seq<super::error::IssueView> {
    when(
        profile.session.max_recording_secs == 0,
        super::error::hinted(
            base + ".session.max_recording_secs"@,
            "must be non-zero"@,
            "this is the watchdog that stops a recording when a release keybind is missed; disabling it means recording until the disk fills"@,
        ),
    ) + when(
        profile.session.max_total_secs < profile.session.max_recording_secs,
        super::error::issue(
            base + ".session.max_total_secs"@,
            "must be at least session.max_recording_secs"@,
        ),
    ) + when(
        profile.continuation.max_segments == 0,
        super::error::issue(base + ".continuation.max_segments"@, "must be at least 1"@),
    ) + when(
        profile.capture.pre_roll_ms > 30_000,
        super::error::hinted(
            base + ".capture.pre_roll_ms"@,
            crate::text::decimal(profile.capture.pre_roll_ms as nat)
                + "ms is more than the 30s maximum"@,
            "the pre-roll window is held in memory continuously"@,
        ),
    )
}

fn check_profile_timing(base: &str, profile: &Profile, report: &mut Report)
    ensures
        final(report)@ == old(report)@.plus(timing_errors(base@, *profile), Seq::empty()),
{
    let ghost before = report@;
    if profile.session.max_recording_secs == 0 {
        report.error(
            Issue::new(
                concat(base, ".session.max_recording_secs"),
                "must be non-zero".to_owned(),
            ).with_hint(
                "this is the watchdog that stops a recording when a release keybind is missed; disabling it means recording until the disk fills".to_owned(),
            ),
        );
    }
    if profile.session.max_total_secs < profile.session.max_recording_secs {
        report.error(
            Issue::new(
                concat(base, ".session.max_total_secs"),
                "must be at least session.max_recording_secs".to_owned(),
            ),
        );
    }
    if profile.continuation.max_segments == 0 {
        report.error(
            Issue::new(
                concat(base, ".continuation.max_segments"),
                "must be at least 1".to_owned(),
            ),
        );
    }
    if profile.capture.pre_roll_ms > 30_000 {
        report.error(
            Issue::new(
                concat(base, ".capture.pre_roll_ms"),
                concat(
                    decimal_text(profile.capture.pre_roll_ms as u64).as_str(),
                    "ms is more than the 30s maximum",
                ),
            ).with_hint("the pre-roll window is held in memory continuously".to_owned()),
        );
    }
    proof {
        let expected = before.plus(timing_errors(base@, *profile), Seq::empty());
        assert(report@.errors =~= expected.errors);
        assert(report@.warnings =~= expected.warnings);
    }
}

/// Whether a profile's sink is defined and needs a transcript.
pub open spec fn is_text_only(config: Config, name: Seq<char>) -> bool {
    match crate::names::lookup(config.sinks@, name) {
        Some(sink) => sink.needs_text_spec(),
        None => false,
    }
}

/// The sinks of a profile that need a transcript, quoted.
pub open spec fn text_only_quoted(config: Config, sinks: Seq<String>) -> Seq<Seq<char>>
    decreases sinks.len(),
{
    if sinks.len() == 0 {
        Seq::empty()
    } else if is_text_only(config, sinks.last()@) {
        text_only_quoted(config, sinks.drop_last()).push(crate::text::quoted(sinks.last()@))
    } else {
        text_only_quoted(config, sinks.drop_last())
    }
}

pub open spec fn on_demand_warnings(base: Seq<char>, profile: Profile) -> Seq<
    super::error::IssueView,
> {
    if profile.capture.mode != CaptureMode::OnDemand {
        Seq::empty()
    } else {
        when(
            profile.capture.pre_roll_ms > 0,
            super::error::hinted(
                base + ".capture.pre_roll_ms"@,
                "has no effect in on_demand mode, where nothing is captured before the keypress"@,
                "switch to mode = \"preroll\" to get the audio before the keypress"@,
            ),
        ) + when(
            profile.capture.idle_release_secs > 0,
            super::error::issue(
                base + ".capture.idle_release_secs"@,
                "has no effect in on_demand mode, where the device is already closed when idle"@,
            ),
        ) + when(
            profile.continuation.gap == GapMode::Keep,
            super::error::hinted(
                base + ".continuation.gap"@,
                "cannot keep gap audio in on_demand mode, where the device is closed during the gap; it will behave as \"drop\""@,
                "set gap = \"drop\" to make that explicit"@,
            ),
        )
    }
}

pub open spec fn coherence_warnings(
    config: Config,
    base: Seq<char>,
    name: Seq<char>,
    profile: Profile,
) -> Seq<super::error::IssueView> {
    let text_only = text_only_quoted(config, profile.sinks@);
    on_demand_warnings(base, profile) + when(
        profile.transcriber is None && text_only.len() > 0,
        super::error::hinted(
            base + ".sinks"@,
            "["@ + crate::text::joined(text_only, ", "@) + "] need a transcript, but profile "@
                + crate::text::quoted(name)
                + " has no transcriber, so they will always be skipped"@,
            "set a transcriber, or set requires_text = false on those sinks"@,
        ),
    ) + when(
        profile.sinks@.len() == 0 && profile.transcriber is None,
        super::error::issue(
            base,
            "has no transcriber and no sinks, so it only archives the recording"@,
        ),
    )
}

/// Combinations that parse and validate individually but do not mean anything together.
fn check_profile_coherence(
    base: &str,
    name: &str,
    profile: &Profile,
    config: &Config,
    report: &mut Report,
)
    ensures
        final(report)@ == old(report)@.plus(
            Seq::empty(),
            coherence_warnings(*config, base@, name@, *profile),
        ),
{
    let ghost before = report@;
    if profile.capture.mode == CaptureMode::OnDemand {
        if profile.capture.pre_roll_ms > 0 {
            report.warn(
                Issue::new(
                    concat(base, ".capture.pre_roll_ms"),
                    "has no effect in on_demand mode, where nothing is captured before the keypress".to_owned(),
                ).with_hint(
                    "switch to mode = \"preroll\" to get the audio before the keypress".to_owned(),
                ),
            );
        }
        if profile.capture.idle_release_secs > 0 {
            report.warn(
                Issue::new(
                    concat(base, ".capture.idle_release_secs"),
                    "has no effect in on_demand mode, where the device is already closed when idle".to_owned(),
                ),
            );
        }
        if profile.continuation.gap == GapMode::Keep {
            report.warn(
                Issue::new(
                    concat(base, ".continuation.gap"),
                    "cannot keep gap audio in on_demand mode, where the device is closed during the gap; it will behave as \"drop\"".to_owned(),
                ).with_hint("set gap = \"drop\" to make that explicit".to_owned()),
            );
        }
    }
    let ghost after_mode = report@;
    assert(after_mode.warnings =~= before.warnings + on_demand_warnings(base@, *profile));
    assert(after_mode.errors =~= before.errors);
    let text_only = text_only_names(config, &profile.sinks);
    if profile.transcriber.is_none() {
        if text_only.len() > 0 {
            let mut message = concat3("[", join(&text_only, ", ").as_str(), "] need a transcript, but profile ");
            message.append(quote(name).as_str());
            message.append(" has no transcriber, so they will always be skipped");
            report.warn(
                Issue::new(concat(base, ".sinks"), message).with_hint(
                    "set a transcriber, or set requires_text = false on those sinks".to_owned(),
                ),
            );
        }
    }
    if profile.sinks.len() == 0 && profile.transcriber.is_none() {
        report.warn(
            Issue::new(
                base.to_owned(),
                "has no transcriber and no sinks, so it only archives the recording".to_owned(),
            ),
        );
    }
    proof {
        let expected = before.plus(
            Seq::empty(),
            coherence_warnings(*config, base@, name@, *profile),
        );
        assert(text_only@.len() == text_only_quoted(*config, profile.sinks@).len());
        assert(report@.errors =~= expected.errors);
        assert(report@.warnings =~= expected.warnings);
    }
}

/// The sinks of a profile that need a transcript, quoted.
fn text_only_names(config: &Config, sinks: &Vec<String>) -> (result: Vec<String>)
    ensures
        crate::text::texts(result@) == text_only_quoted(*config, sinks@),
{
    let mut out: Vec<String> = Vec::new();
    let mut i: usize = 0;
    assert(crate::text::texts(out@) =~= text_only_quoted(*config, sinks@.take(0)));
    while i < sinks.len()
        invariant
            i <= sinks.len(),
            crate::text::texts(out@) == text_only_quoted(*config, sinks@.take(i as int)),
        decreases sinks.len() - i,
    {
        let ghost out0 = crate::text::texts(out@);
        let needs = match config.sinks.get(sinks[i].as_str()) {
            Some(sink) => sink.needs_text(),
            None => false,
        };
        proof {
            assert(sinks@.take(i + 1).drop_last() =~= sinks@.take(i as int));
            assert(sinks@.take(i + 1).last() == sinks@[i as int]);
        }
        if needs {
            out.push(quote(sinks[i].as_str()));
            assert(crate::text::texts(out@) =~= out0.push(crate::text::quoted(sinks@[i as int]@)));
        }
        i += 1;
    }
    assert(sinks@.take(i as int) =~= sinks@);
    out
}

pub open spec fn profile_errors(config: Config, name: Seq<char>, profile: Profile) -> Seq<
    super::error::IssueView,
> {
    let base = "profiles."@ + name;
    (match profile.transcriber {
        Some(transcriber) => when(
            !crate::names::has_name(config.transcribers@, transcriber@),
            missing(
                base + ".transcriber"@,
                "transcriber"@,
                transcriber@,
                crate::names::names_of(config.transcribers@),
            ),
        ),
        None => Seq::empty(),
    }) + crate::lists::gathered(profile.sinks@, sink_reference_rule(config, base)) + timing_errors(base, profile)
}

pub open spec fn profile_warnings(config: Config, name: Seq<char>, profile: Profile) -> Seq<
    super::error::IssueView,
> {
    let base = "profiles."@ + name;
    repeat_warnings(base, profile.sinks@) + coherence_warnings(config, base, name, profile)
}

fn check_profile(name: &str, profile: &Profile, config: &Config, report: &mut Report)
    ensures
        final(report)@ == old(report)@.plus(
            profile_errors(*config, name@, *profile),
            profile_warnings(*config, name@, *profile),
        ),
{
    let ghost before = report@;
    let base = concat("profiles.", name);
    match &profile.transcriber {
        Some(transcriber) => {
            if !config.transcribers.contains_key(transcriber.as_str()) {
                report.error(
                    missing_issue(
                        concat(base.as_str(), ".transcriber"),
                        "transcriber",
                        transcriber.as_str(),
                        &config.transcribers.keys(),
                    ),
                );
            }
        },
        None => {},
    }
    let ghost middle = report@;
    let sinks = &profile.sinks;
    let defined = config.sinks.keys();
    let ghost rule = sink_reference_rule(*config, base@);
    let mut seen: Vec<String> = Vec::new();
    let mut i: usize = 0;
    assert(middle.errors + crate::lists::gathered(sinks@.take(0), rule) =~= middle.errors);
    assert(middle.warnings + repeat_warnings(base@, sinks@.take(0)) =~= middle.warnings);
    assert(crate::text::texts(seen@) =~= crate::text::texts(sinks@.take(0)));
    while i < sinks.len()
        invariant
            i <= sinks.len(),
            rule == sink_reference_rule(*config, base@),
            crate::text::texts(defined@) == crate::names::names_of(config.sinks@),
            crate::text::texts(seen@) == crate::text::texts(sinks@.take(i as int)),
            report@.errors == middle.errors + crate::lists::gathered(sinks@.take(i as int), rule),
            report@.warnings == middle.warnings + repeat_warnings(base@, sinks@.take(i as int)),
        decreases sinks.len() - i,
    {
        let ghost start = report@;
        let sink_name = sinks[i].as_str();
        proof {
            crate::lists::lemma_gathered_one_more(sinks@, rule, i as int);
            assert(sinks@.take(i + 1).drop_last() =~= sinks@.take(i as int));
            assert(sinks@.take(i + 1).last() == sinks@[i as int]);
        }
        if !config.sinks.contains_key(sink_name) {
            report.error(
                missing_issue(concat(base.as_str(), ".sinks"), "sink", sink_name, &defined),
            );
        }
        if contains_name(&seen, sink_name) {
            report.warn(
                Issue::new(
                    concat(base.as_str(), ".sinks"),
                    concat(quote(sink_name).as_str(), " is listed twice and will run twice"),
                ),
            );
        }
        let ghost seen0 = crate::text::texts(seen@);
        seen.push(sinks[i].clone());
        proof {
            assert(crate::text::texts(seen@) =~= seen0.push(sinks@[i as int]@));
            assert(crate::text::texts(sinks@.take(i + 1)) =~= crate::text::texts(
                sinks@.take(i as int),
            ).push(sinks@[i as int]@));
            assert(report@.errors =~= middle.errors + crate::lists::gathered(sinks@.take(i + 1), rule));
            assert(report@.warnings =~= middle.warnings + repeat_warnings(
                base@,
                sinks@.take(i + 1),
            ));
        }
        i += 1;
    }
    assert(sinks@.take(i as int) =~= profile.sinks@);
    check_profile_timing(base.as_str(), profile, report);
    check_profile_coherence(base.as_str(), name, profile, config, report);
    proof {
        let expected = before.plus(
            profile_errors(*config, name@, *profile),
            profile_warnings(*config, name@, *profile),
        );
        assert(report@.errors =~= expected.errors);
        assert(report@.warnings =~= expected.warnings);
    }
}

// ── what is defined and not used ────────────────────────────────────────────

/// Whether some profile transcribes with `name`.
pub open spec fn transcriber_is_used(config: Config, name: Seq<char>) -> bool {
    exists|i: int|
        0 <= i < config.profiles@.len() && ((#[trigger] config.profiles@[i]).1.transcriber matches Some(
            used,
        ) && used@ == name)
}

/// Whether some profile delivers to `name`.
pub open spec fn sink_is_used(config: Config, name: Seq<char>) -> bool {
    exists|i: int|
        0 <= i < config.profiles@.len() && crate::text::texts(
            (#[trigger] config.profiles@[i]).1.sinks@,
        ).contains(name)
}

/// The rule that finds a transcriber no profile uses.
pub open spec fn unused_transcriber_rule(config: Config) -> spec_fn(
    (String, TranscriberConfig),
) -> Seq<super::error::IssueView> {
    |e: (String, TranscriberConfig)|
        when(
            !transcriber_is_used(config, e.0@),
            super::error::issue("transcribers."@ + e.0@, "is defined but no profile uses it"@),
        )
}

/// The rule that finds a sink no profile uses.
pub open spec fn unused_sink_rule(config: Config) -> spec_fn((String, SinkConfig)) -> Seq<
    super::error::IssueView,
> {
    |e: (String, SinkConfig)|
        when(
            !sink_is_used(config, e.0@),
            super::error::issue("sinks."@ + e.0@, "is defined but no profile uses it"@),
        )
}

/// The rule that finds a presenter the feedback does not list.
pub open spec fn unused_presenter_rule(config: Config) -> spec_fn((String, PresenterConfig)) -> Seq<
    super::error::IssueView,
> {
    |e: (String, PresenterConfig)|
        when(
            !crate::text::texts(config.feedback.presenters@).contains(e.0@),
            super::error::issue(
                "presenters."@ + e.0@,
                "is defined but feedback.presenters does not list it"@,
            ),
        )
}

pub open spec fn unused_warnings(config: Config) -> Seq<super::error::IssueView> {
    crate::lists::gathered(config.transcribers@, unused_transcriber_rule(config)) + crate::lists::gathered(
        config.sinks@,
        unused_sink_rule(config),
    ) + crate::lists::gathered(config.presenters@, unused_presenter_rule(config))
}

fn transcriber_used(config: &Config, name: &str) -> (result: bool)
    ensures
        result == transcriber_is_used(*config, name@),
{
    let profiles = config.profiles.entries();
    let mut i: usize = 0;
    while i < profiles.len()
        invariant
            i <= profiles.len(),
            profiles@ == config.profiles@,
            forall|j: int|
                0 <= j < i ==> !((#[trigger] config.profiles@[j]).1.transcriber matches Some(used)
                    && used@ == name@),
        decreases profiles.len() - i,
    {
        match &profiles[i].1.transcriber {
            Some(used) => {
                if same_text(used.as_str(), name) {
                    assert(config.profiles@[i as int].1.transcriber matches Some(u) && u@ == name@);
                    return true;
                }
            },
            None => {},
        }
        i += 1;
    }
    false
}

fn sink_used(config: &Config, name: &str) -> (result: bool)
    ensures
        result == sink_is_used(*config, name@),
{
    let profiles = config.profiles.entries();
    let mut i: usize = 0;
    while i < profiles.len()
        invariant
            i <= profiles.len(),
            profiles@ == config.profiles@,
            forall|j: int|
                0 <= j < i ==> !crate::text::texts(
                    (#[trigger] config.profiles@[j]).1.sinks@,
                ).contains(name@),
        decreases profiles.len() - i,
    {
        if contains_name(&profiles[i].1.sinks, name) {
            assert(crate::text::texts(config.profiles@[i as int].1.sinks@).contains(name@));
            return true;
        }
        i += 1;
    }
    false
}

/// Things defined but never referenced. Usually a rename that was only half applied.
fn check_unused(config: &Config, report: &mut Report)
    ensures
        final(report)@ == old(report)@.plus(Seq::empty(), unused_warnings(*config)),
{
    let ghost before = report@;
    let transcribers = config.transcribers.entries();
    let ghost rule = unused_transcriber_rule(*config);
    let mut i: usize = 0;
    assert(before.warnings + crate::lists::gathered(transcribers@.take(0), rule) =~= before.warnings);
    while i < transcribers.len()
        invariant
            i <= transcribers.len(),
            rule == unused_transcriber_rule(*config),
            report@.warnings == before.warnings + crate::lists::gathered(transcribers@.take(i as int), rule),
            report@.errors == before.errors,
        decreases transcribers.len() - i,
    {
        proof {
            crate::lists::lemma_gathered_one_more(transcribers@, rule, i as int);
        }
        let name = transcribers[i].0.as_str();
        if !transcriber_used(config, name) {
            report.warn(
                Issue::new(
                    concat("transcribers.", name),
                    "is defined but no profile uses it".to_owned(),
                ),
            );
        }
        assert(report@.warnings =~= before.warnings + crate::lists::gathered(transcribers@.take(i + 1), rule));
        assert(report@.errors =~= before.errors);
        i += 1;
    }
    assert(transcribers@.take(i as int) =~= config.transcribers@);
    let ghost first = report@;
    let sinks = config.sinks.entries();
    let ghost rule = unused_sink_rule(*config);
    let mut i: usize = 0;
    assert(first.warnings + crate::lists::gathered(sinks@.take(0), rule) =~= first.warnings);
    while i < sinks.len()
        invariant
            i <= sinks.len(),
            rule == unused_sink_rule(*config),
            report@.warnings == first.warnings + crate::lists::gathered(sinks@.take(i as int), rule),
            report@.errors == first.errors,
        decreases sinks.len() - i,
    {
        proof {
            crate::lists::lemma_gathered_one_more(sinks@, rule, i as int);
        }
        let name = sinks[i].0.as_str();
        if !sink_used(config, name) {
            report.warn(
                Issue::new(
                    concat("sinks.", name),
                    "is defined but no profile uses it".to_owned(),
                ),
            );
        }
        assert(report@.warnings =~= first.warnings + crate::lists::gathered(sinks@.take(i + 1), rule));
        assert(report@.errors =~= first.errors);
        i += 1;
    }
    assert(sinks@.take(i as int) =~= config.sinks@);
    let ghost second = report@;
    let presenters = config.presenters.entries();
    let ghost rule = unused_presenter_rule(*config);
    let mut i: usize = 0;
    assert(second.warnings + crate::lists::gathered(presenters@.take(0), rule) =~= second.warnings);
    while i < presenters.len()
        invariant
            i <= presenters.len(),
            rule == unused_presenter_rule(*config),
            report@.warnings == second.warnings + crate::lists::gathered(presenters@.take(i as int), rule),
            report@.errors == second.errors,
        decreases presenters.len() - i,
    {
        proof {
            crate::lists::lemma_gathered_one_more(presenters@, rule, i as int);
        }
        let name = presenters[i].0.as_str();
        if !contains_name(&config.feedback.presenters, name) {
            report.warn(
                Issue::new(
                    concat("presenters.", name),
                    "is defined but feedback.presenters does not list it".to_owned(),
                ),
            );
        }
        assert(report@.warnings =~= second.warnings + crate::lists::gathered(presenters@.take(i + 1), rule));
        assert(report@.errors =~= second.errors);
        i += 1;
    }
    assert(presenters@.take(i as int) =~= config.presenters@);
    proof {
        let expected = before.plus(Seq::empty(), unused_warnings(*config));
        assert(report@.errors =~= expected.errors);
        assert(report@.warnings =~= expected.warnings);
    }
}

// ── the whole ───────────────────────────────────────────────────────────────

/// The rule that finds what is wrong with a transcriber.
pub open spec fn transcriber_rule() -> spec_fn((String, TranscriberConfig)) -> Seq<
    super::error::IssueView,
> {
    |e: (String, TranscriberConfig)| transcriber_errors(e.0@, e.1)
}

/// The rule that finds what is questionable about a transcriber.
pub open spec fn transcriber_doubts() -> spec_fn((String, TranscriberConfig)) -> Seq<
    super::error::IssueView,
> {
    |e: (String, TranscriberConfig)| transcriber_warnings(e.0@, e.1)
}

/// The rule that finds what is wrong with a sink.
pub open spec fn sink_rule() -> spec_fn((String, SinkConfig)) -> Seq<super::error::IssueView> {
    |e: (String, SinkConfig)| sink_errors(e.0@, e.1)
}

/// The rule that finds what is questionable about a sink.
pub open spec fn sink_doubts() -> spec_fn((String, SinkConfig)) -> Seq<super::error::IssueView> {
    |e: (String, SinkConfig)| sink_warnings(e.0@, e.1)
}

/// The rule that finds what is wrong with a profile.
pub open spec fn profile_rule(config: Config) -> spec_fn((String, Profile)) -> Seq<
    super::error::IssueView,
> {
    |e: (String, Profile)| profile_errors(config, e.0@, e.1)
}

/// The rule that finds what is questionable about a profile.
pub open spec fn profile_doubts(config: Config) -> spec_fn((String, Profile)) -> Seq<
    super::error::IssueView,
> {
    |e: (String, Profile)| profile_warnings(config, e.0@, e.1)
}

/// Everything wrong with a configuration.
pub open spec fn config_errors(config: Config) -> Seq<super::error::IssueView> {
    audio_errors(config.audio) + level_errors(config.levels) + crate::lists::gathered(
        config.transcribers@,
        transcriber_rule(),
    ) + crate::lists::gathered(config.sinks@, sink_rule()) + presenters_errors(config) + when(
        config.profiles@.len() == 0,
        super::error::hinted(
            "profiles"@,
            "no profiles are defined"@,
            "a profile is what a keybind selects; define at least one"@,
        ),
    ) + crate::lists::gathered(config.profiles@, profile_rule(config))
}

/// Everything questionable about a configuration.
pub open spec fn config_warnings(config: Config) -> Seq<super::error::IssueView> {
    audio_warnings(config.audio) + crate::lists::gathered(config.transcribers@, transcriber_doubts()) + crate::lists::gathered(
        config.sinks@,
        sink_doubts(),
    ) + presenters_warnings(config) + crate::lists::gathered(config.profiles@, profile_doubts(config))
        + unused_warnings(config)
}

fn check_transcribers(config: &Config, report: &mut Report)
    ensures
        final(report)@ == old(report)@.plus(
            crate::lists::gathered(config.transcribers@, transcriber_rule()),
            crate::lists::gathered(config.transcribers@, transcriber_doubts()),
        ),
{
    let ghost before = report@;
    let entries = config.transcribers.entries();
    let mut i: usize = 0;
    assert(before.errors + crate::lists::gathered(entries@.take(0), transcriber_rule()) =~= before.errors);
    assert(before.warnings + crate::lists::gathered(entries@.take(0), transcriber_doubts()) =~= before.warnings);
    while i < entries.len()
        invariant
            i <= entries.len(),
            report@.errors == before.errors + crate::lists::gathered(entries@.take(i as int), transcriber_rule()),
            report@.warnings == before.warnings + crate::lists::gathered(
                entries@.take(i as int),
                transcriber_doubts(),
            ),
        decreases entries.len() - i,
    {
        proof {
            crate::lists::lemma_gathered_one_more(entries@, transcriber_rule(), i as int);
            crate::lists::lemma_gathered_one_more(entries@, transcriber_doubts(), i as int);
        }
        check_transcriber(entries[i].0.as_str(), &entries[i].1, report);
        assert(report@.errors =~= before.errors + crate::lists::gathered(
            entries@.take(i + 1),
            transcriber_rule(),
        ));
        assert(report@.warnings =~= before.warnings + crate::lists::gathered(
            entries@.take(i + 1),
            transcriber_doubts(),
        ));
        i += 1;
    }
    assert(entries@.take(i as int) =~= config.transcribers@);
}

fn check_sinks(config: &Config, report: &mut Report)
    ensures
        final(report)@ == old(report)@.plus(
            crate::lists::gathered(config.sinks@, sink_rule()),
            crate::lists::gathered(config.sinks@, sink_doubts()),
        ),
{
    let ghost before = report@;
    let entries = config.sinks.entries();
    let mut i: usize = 0;
    assert(before.errors + crate::lists::gathered(entries@.take(0), sink_rule()) =~= before.errors);
    assert(before.warnings + crate::lists::gathered(entries@.take(0), sink_doubts()) =~= before.warnings);
    while i < entries.len()
        invariant
            i <= entries.len(),
            report@.errors == before.errors + crate::lists::gathered(entries@.take(i as int), sink_rule()),
            report@.warnings == before.warnings + crate::lists::gathered(entries@.take(i as int), sink_doubts()),
        decreases entries.len() - i,
    {
        proof {
            crate::lists::lemma_gathered_one_more(entries@, sink_rule(), i as int);
            crate::lists::lemma_gathered_one_more(entries@, sink_doubts(), i as int);
        }
        check_sink(entries[i].0.as_str(), &entries[i].1, report);
        assert(report@.errors =~= before.errors + crate::lists::gathered(entries@.take(i + 1), sink_rule()));
        assert(report@.warnings =~= before.warnings + crate::lists::gathered(entries@.take(i + 1), sink_doubts()));
        i += 1;
    }
    assert(entries@.take(i as int) =~= config.sinks@);
}

fn check_profiles(config: &Config, report: &mut Report)
    ensures
        final(report)@ == old(report)@.plus(
            when(
                config.profiles@.len() == 0,
                super::error::hinted(
                    "profiles"@,
                    "no profiles are defined"@,
                    "a profile is what a keybind selects; define at least one"@,
                ),
            ) + crate::lists::gathered(config.profiles@, profile_rule(*config)),
            crate::lists::gathered(config.profiles@, profile_doubts(*config)),
        ),
{
    let ghost before = report@;
    if config.profiles.is_empty() {
        report.error(
            Issue::new("profiles".to_owned(), "no profiles are defined".to_owned()).with_hint(
                "a profile is what a keybind selects; define at least one".to_owned(),
            ),
        );
    }
    let ghost middle = report@;
    let ghost rule = profile_rule(*config);
    let ghost doubts = profile_doubts(*config);
    let entries = config.profiles.entries();
    let mut i: usize = 0;
    assert(middle.errors + crate::lists::gathered(entries@.take(0), rule) =~= middle.errors);
    assert(middle.warnings + crate::lists::gathered(entries@.take(0), doubts) =~= middle.warnings);
    while i < entries.len()
        invariant
            i <= entries.len(),
            rule == profile_rule(*config),
            doubts == profile_doubts(*config),
            report@.errors == middle.errors + crate::lists::gathered(entries@.take(i as int), rule),
            report@.warnings == middle.warnings + crate::lists::gathered(entries@.take(i as int), doubts),
        decreases entries.len() - i,
    {
        proof {
            crate::lists::lemma_gathered_one_more(entries@, rule, i as int);
            crate::lists::lemma_gathered_one_more(entries@, doubts, i as int);
        }
        check_profile(entries[i].0.as_str(), &entries[i].1, config, report);
        assert(report@.errors =~= middle.errors + crate::lists::gathered(entries@.take(i + 1), rule));
        assert(report@.warnings =~= middle.warnings + crate::lists::gathered(entries@.take(i + 1), doubts));
        i += 1;
    }
    assert(entries@.take(i as int) =~= config.profiles@);
    proof {
        let expected = before.plus(
            when(
                config.profiles@.len() == 0,
                super::error::hinted(
                    "profiles"@,
                    "no profiles are defined"@,
                    "a profile is what a keybind selects; define at least one"@,
                ),
            ) + crate::lists::gathered(config.profiles@, rule),
            crate::lists::gathered(config.profiles@, doubts),
        );
        assert(report@.errors =~= expected.errors);
        assert(report@.warnings =~= expected.warnings);
    }
}

/// Everything wrong with a configuration, and everything questionable about it, in one pass.
pub fn check(config: &Config) -> (result: Report)
    ensures
        result@.errors == config_errors(*config),
        result@.warnings == config_warnings(*config),
{
    let mut report = Report::default();
    check_audio(&config.audio, &mut report);
    check_levels(&config.levels, &mut report);
    check_transcribers(config, &mut report);
    check_sinks(config, &mut report);
    check_presenters(config, &mut report);
    check_profiles(config, &mut report);
    check_unused(config, &mut report);
    assert(report@.errors =~= config_errors(*config));
    assert(report@.warnings =~= config_warnings(*config));
    report
}

// ── what is accepted ────────────────────────────────────────────────────────

/// Whether a list of issues holds one at this path.
pub open spec fn reports(issues: Seq<super::error::IssueView>, path: Seq<char>) -> bool {
    exists|i: int| 0 <= i < issues.len() && (#[trigger] issues[i]).path == path
}

proof fn lemma_audio_paths_differ()
    ensures
        "audio.sample_rate"@ != "audio.channels"@,
        "audio.sample_rate"@.len() > 0 && "audio.sample_rate"@[0] == 'a',
        "audio.channels"@.len() > 0 && "audio.channels"@[0] == 'a',
{
    reveal_strlit("audio.sample_rate");
    reveal_strlit("audio.channels");
    assert("audio.sample_rate"@.len() == 17);
    assert("audio.channels"@.len() == 14);
}

/// A sample rate is an error exactly when it is none of 8000, 16000, 22050, 24000, 44100 and
/// 48000; a number of channels when it is neither one nor two; and two are questionable.
pub proof fn law_only_the_listed_rates_are_supported(audio: AudioConfig)
    ensures
        reports(audio_errors(audio), "audio.sample_rate"@) <==> !(set![
            8_000u32,
            16_000u32,
            22_050u32,
            24_000u32,
            44_100u32,
            48_000u32,
        ].contains(audio.sample_rate)),
        reports(audio_errors(audio), "audio.channels"@) <==> audio.channels < 1 || audio.channels
            > 2,
        reports(audio_warnings(audio), "audio.channels"@) <==> audio.channels == 2,
        audio_errors(audio).len() == 0 <==> !reports(audio_errors(audio), "audio.sample_rate"@)
            && !reports(audio_errors(audio), "audio.channels"@),
        audio_warnings(audio).len() <= 1,
{
    lemma_audio_paths_differ();
    let errors = audio_errors(audio);
    let warnings = audio_warnings(audio);
    if !is_valid_rate(audio.sample_rate) {
        assert(errors[0].path == "audio.sample_rate"@);
    }
    if audio.channels != 1 && audio.channels != 2 {
        assert(errors[errors.len() - 1].path == "audio.channels"@);
    }
    if audio.channels == 2 {
        assert(warnings[0].path == "audio.channels"@);
    }
}

/// Whether every issue is about something outside the audio section.
spec fn elsewhere(issues: Seq<super::error::IssueView>) -> bool {
    forall|i: int|
        0 <= i < issues.len() ==> (#[trigger] issues[i]).path.len() > 0 && issues[i].path[0] != 'a'
}

proof fn lemma_elsewhere_joined(
    first: Seq<super::error::IssueView>,
    second: Seq<super::error::IssueView>,
)
    requires
        elsewhere(first),
        elsewhere(second),
    ensures
        elsewhere(first + second),
{
    assert forall|i: int| 0 <= i < (first + second).len() implies (
    #[trigger] (first + second)[i]).path.len() > 0 && (first + second)[i].path[0] != 'a' by {
        if i < first.len() {
            assert((first + second)[i] == first[i]);
        } else {
            assert((first + second)[i] == second[i - first.len()]);
        }
    }
}

proof fn lemma_elsewhere_gathered<T>(
    items: Seq<T>,
    rule: spec_fn(T) -> Seq<super::error::IssueView>,
)
    requires
        forall|i: int| 0 <= i < items.len() ==> elsewhere(rule(#[trigger] items[i])),
    ensures
        elsewhere(crate::lists::gathered(items, rule)),
    decreases items.len(),
{
    if items.len() > 0 {
        let shorter = items.drop_last();
        assert forall|i: int| 0 <= i < shorter.len() implies elsewhere(
            rule(#[trigger] shorter[i]),
        ) by {
            assert(shorter[i] == items[i]);
        }
        lemma_elsewhere_gathered(shorter, rule);
        assert(elsewhere(rule(items[items.len() - 1])));
        lemma_elsewhere_joined(crate::lists::gathered(shorter, rule), rule(items.last()));
    }
}

proof fn lemma_levels_are_elsewhere(levels: LevelsConfig)
    ensures
        elsewhere(level_errors(levels)),
{
    reveal_strlit("levels.silence_dbfs");
    reveal_strlit("levels.too_quiet_dbfs");
    reveal_strlit("levels.speech_dbfs");
    let a = above_full_scale("levels.silence_dbfs"@, levels.silence_dbfs);
    let b = above_full_scale("levels.too_quiet_dbfs"@, levels.too_quiet_dbfs);
    let c = above_full_scale("levels.speech_dbfs"@, levels.speech_dbfs);
    let d = when(
        levels.silence_dbfs.value.at_least_spec(levels.too_quiet_dbfs.value),
        super::error::hinted(
            "levels.silence_dbfs"@,
            "must be below levels.too_quiet_dbfs"@,
            "silence is quieter than merely too quiet"@,
        ),
    );
    assert(elsewhere(a) && elsewhere(b) && elsewhere(c) && elsewhere(d));
    lemma_elsewhere_joined(a, b);
    lemma_elsewhere_joined(a + b, c);
    lemma_elsewhere_joined(a + b + c, d);
}

proof fn lemma_secrets_are_elsewhere(path: Seq<char>, secret: SecretRef)
    requires
        path.len() > 0,
        path[0] != 'a',
    ensures
        elsewhere(secret_errors(path, secret)),
{
    assert((path + ".env"@)[0] == path[0]);
    assert((path + ".command"@)[0] == path[0]);
}

proof fn lemma_transcriber_is_elsewhere(name: Seq<char>, transcriber: TranscriberConfig)
    ensures
        elsewhere(transcriber_errors(name, transcriber)),
{
    let base = "transcribers."@ + name;
    assert(base.len() > 0 && base[0] == 't') by {
        reveal_strlit("transcribers.");
    }
    let slow = when(
        transcriber.timeout_ms == 0,
        super::error::issue(base + ".timeout_ms"@, "must be non-zero"@),
    );
    let tried = when(
        transcriber.retry.attempts == 0,
        super::error::hinted(
            base + ".retry.attempts"@,
            "must be at least 1"@,
            "1 means try once and do not retry"@,
        ),
    );
    assert((base + ".timeout_ms"@)[0] == 't');
    assert((base + ".retry.attempts"@)[0] == 't');
    assert(elsewhere(slow) && elsewhere(tried));
    lemma_elsewhere_joined(slow, tried);
    match transcriber.kind {
        TranscriberKind::Openai(openai) => {
            assert((base + ".api_key"@)[0] == 't');
            assert((base + ".base_url"@)[0] == 't');
            assert((base + ".temperature"@)[0] == 't');
            let secret = secret_errors(base + ".api_key"@, openai.api_key);
            let address = url_errors(base + ".base_url"@, openai.base_url@);
            lemma_secrets_are_elsewhere(base + ".api_key"@, openai.api_key);
            assert(elsewhere(address));
            lemma_elsewhere_joined(secret, address);
            let rest = match openai.temperature {
                Some(temperature) => when(
                    !is_temperature(temperature.value),
                    super::error::issue(
                        base + ".temperature"@,
                        temperature.text@ + " is outside 0.0..=1.0"@,
                    ),
                ),
                None => Seq::empty(),
            };
            assert(elsewhere(rest));
            lemma_elsewhere_joined(secret + address, rest);
            lemma_elsewhere_joined(slow + tried, openai_errors(base, openai));
        },
        TranscriberKind::Http(http) => {
            assert((base + ".url"@)[0] == 't');
            let address = url_errors(base + ".url"@, http.url@);
            assert(elsewhere(address));
            lemma_elsewhere_joined(slow + tried, address);
        },
        TranscriberKind::Command(command) => {
            assert((base + ".cmd"@)[0] == 't');
            let empty = when(
                command.cmd@.len() == 0,
                super::error::issue(base + ".cmd"@, "is empty"@),
            );
            assert(elsewhere(empty));
            lemma_elsewhere_joined(slow + tried, empty);
        },
    }
}

proof fn lemma_sink_is_elsewhere(name: Seq<char>, sink: SinkConfig)
    ensures
        elsewhere(sink_errors(name, sink)),
{
    let base = "sinks."@ + name;
    assert(base.len() > 0 && base[0] == 's') by {
        reveal_strlit("sinks.");
    }
    let slow = when(
        sink.timeout_ms == 0,
        super::error::issue(base + ".timeout_ms"@, "must be non-zero"@),
    );
    let tried = when(
        sink.retry.attempts == 0,
        super::error::issue(base + ".retry.attempts"@, "must be at least 1"@),
    );
    assert((base + ".timeout_ms"@)[0] == 's');
    assert((base + ".retry.attempts"@)[0] == 's');
    assert((base + ".cmd"@)[0] == 's');
    assert((base + ".url"@)[0] == 's');
    assert((base + ".path"@)[0] == 's');
    assert(elsewhere(slow) && elsewhere(tried));
    lemma_elsewhere_joined(slow, tried);
    let rest = match sink.kind {
        SinkKind::Command(command) => when(
            command.cmd@.len() == 0,
            super::error::issue(base + ".cmd"@, "is empty"@),
        ),
        SinkKind::Http(http) => url_errors(base + ".url"@, http.url@),
        SinkKind::File(file) => when(
            file.path@.len() == 0,
            super::error::issue(base + ".path"@, "is empty"@),
        ),
        _ => Seq::empty(),
    };
    assert(elsewhere(rest));
    lemma_elsewhere_joined(slow + tried, rest);
}

proof fn lemma_presenters_are_elsewhere(config: Config)
    ensures
        elsewhere(presenters_errors(config)),
{
    reveal_strlit("presenters.");
    reveal_strlit("feedback.presenters");
    reveal_strlit("feedback.level_interval_ms");
    assert forall|i: int| 0 <= i < config.presenters@.len() implies elsewhere(
        presenter_rule()(#[trigger] config.presenters@[i]),
    ) by {
        let path = "presenters."@ + config.presenters@[i].0@ + ".cmd"@;
        assert(path[0] == 'p');
    }
    lemma_elsewhere_gathered(config.presenters@, presenter_rule());
    assert forall|i: int| 0 <= i < config.feedback.presenters@.len() implies elsewhere(
        feedback_rule(config)(#[trigger] config.feedback.presenters@[i]),
    ) by {}
    lemma_elsewhere_gathered(config.feedback.presenters@, feedback_rule(config));
    let presenters = crate::lists::gathered(config.presenters@, presenter_rule());
    let listed = crate::lists::gathered(config.feedback.presenters@, feedback_rule(config));
    lemma_elsewhere_joined(presenters, listed);
    let interval = when(
        config.feedback.enabled && config.feedback.level_interval_ms == 0,
        super::error::hinted(
            "feedback.level_interval_ms"@,
            "must be non-zero"@,
            "this throttles level events; 50 gives a smooth 20 per second"@,
        ),
    );
    assert(elsewhere(interval));
    lemma_elsewhere_joined(presenters + listed, interval);
}

proof fn lemma_timing_is_elsewhere(base: Seq<char>, profile: Profile)
    requires
        base.len() > 0,
        base[0] != 'a',
    ensures
        elsewhere(timing_errors(base, profile)),
{
    let a = when(
        profile.session.max_recording_secs == 0,
        super::error::hinted(
            base + ".session.max_recording_secs"@,
            "must be non-zero"@,
            "this is the watchdog that stops a recording when a release keybind is missed; disabling it means recording until the disk fills"@,
        ),
    );
    let b = when(
        profile.session.max_total_secs < profile.session.max_recording_secs,
        super::error::issue(
            base + ".session.max_total_secs"@,
            "must be at least session.max_recording_secs"@,
        ),
    );
    let c = when(
        profile.continuation.max_segments == 0,
        super::error::issue(base + ".continuation.max_segments"@, "must be at least 1"@),
    );
    let d = when(
        profile.capture.pre_roll_ms > 30_000,
        super::error::hinted(
            base + ".capture.pre_roll_ms"@,
            crate::text::decimal(profile.capture.pre_roll_ms as nat)
                + "ms is more than the 30s maximum"@,
            "the pre-roll window is held in memory continuously"@,
        ),
    );
    assert((base + ".session.max_recording_secs"@)[0] == base[0]);
    assert((base + ".session.max_total_secs"@)[0] == base[0]);
    assert((base + ".continuation.max_segments"@)[0] == base[0]);
    assert((base + ".capture.pre_roll_ms"@)[0] == base[0]);
    assert(elsewhere(a) && elsewhere(b) && elsewhere(c) && elsewhere(d));
    lemma_elsewhere_joined(a, b);
    lemma_elsewhere_joined(a + b, c);
    lemma_elsewhere_joined(a + b + c, d);
}

proof fn lemma_profile_is_elsewhere(config: Config, name: Seq<char>, profile: Profile)
    ensures
        elsewhere(profile_errors(config, name, profile)),
{
    let base = "profiles."@ + name;
    assert(base.len() > 0 && base[0] == 'p') by {
        reveal_strlit("profiles.");
    }
    let rule = sink_reference_rule(config, base);
    assert forall|k: int| 0 <= k < profile.sinks@.len() implies elsewhere(
        rule(#[trigger] profile.sinks@[k]),
    ) by {
        assert((base + ".sinks"@)[0] == 'p');
    }
    lemma_elsewhere_gathered(profile.sinks@, rule);
    let references = crate::lists::gathered(profile.sinks@, rule);
    let first = match profile.transcriber {
        Some(transcriber) => when(
            !crate::names::has_name(config.transcribers@, transcriber@),
            missing(
                base + ".transcriber"@,
                "transcriber"@,
                transcriber@,
                crate::names::names_of(config.transcribers@),
            ),
        ),
        None => Seq::empty(),
    };
    assert((base + ".transcriber"@)[0] == 'p');
    assert(elsewhere(first));
    lemma_elsewhere_joined(first, references);
    lemma_timing_is_elsewhere(base, profile);
    lemma_elsewhere_joined(first + references, timing_errors(base, profile));
}

proof fn lemma_other_sections_are_elsewhere(config: Config)
    ensures
        elsewhere(level_errors(config.levels)),
        elsewhere(crate::lists::gathered(config.transcribers@, transcriber_rule())),
        elsewhere(crate::lists::gathered(config.sinks@, sink_rule())),
        elsewhere(presenters_errors(config)),
        elsewhere(crate::lists::gathered(config.profiles@, profile_rule(config))),
{
    lemma_levels_are_elsewhere(config.levels);
    lemma_presenters_are_elsewhere(config);
    assert forall|i: int| 0 <= i < config.transcribers@.len() implies elsewhere(
        transcriber_rule()(#[trigger] config.transcribers@[i]),
    ) by {
        lemma_transcriber_is_elsewhere(config.transcribers@[i].0@, config.transcribers@[i].1);
    }
    lemma_elsewhere_gathered(config.transcribers@, transcriber_rule());
    assert forall|i: int| 0 <= i < config.sinks@.len() implies elsewhere(
        sink_rule()(#[trigger] config.sinks@[i]),
    ) by {
        lemma_sink_is_elsewhere(config.sinks@[i].0@, config.sinks@[i].1);
    }
    lemma_elsewhere_gathered(config.sinks@, sink_rule());
    assert forall|i: int| 0 <= i < config.profiles@.len() implies elsewhere(
        profile_rule(config)(#[trigger] config.profiles@[i]),
    ) by {
        lemma_profile_is_elsewhere(config, config.profiles@[i].0@, config.profiles@[i].1);
    }
    lemma_elsewhere_gathered(config.profiles@, profile_rule(config));
}

/// The same of a whole configuration: whatever else it holds, it reports its sample rate
/// exactly when that is none of the six, and its channels exactly when they are neither one
/// nor two.
pub proof fn law_a_configuration_is_held_to_the_listed_rates(config: Config)
    ensures
        reports(config_errors(config), "audio.sample_rate"@) <==> !(set![
            8_000u32,
            16_000u32,
            22_050u32,
            24_000u32,
            44_100u32,
            48_000u32,
        ].contains(config.audio.sample_rate)),
        reports(config_errors(config), "audio.channels"@) <==> config.audio.channels < 1
            || config.audio.channels > 2,
{
    lemma_audio_paths_differ();
    law_only_the_listed_rates_are_supported(config.audio);
    lemma_other_sections_are_elsewhere(config);
    let audio = audio_errors(config.audio);
    let transcribers = crate::lists::gathered(config.transcribers@, transcriber_rule());
    let sinks = crate::lists::gathered(config.sinks@, sink_rule());
    let none = when(
        config.profiles@.len() == 0,
        super::error::hinted(
            "profiles"@,
            "no profiles are defined"@,
            "a profile is what a keybind selects; define at least one"@,
        ),
    );
    let profiles = crate::lists::gathered(config.profiles@, profile_rule(config));
    let levels = level_errors(config.levels);
    let presenters = presenters_errors(config);
    assert(elsewhere(none)) by {
        reveal_strlit("profiles");
    }
    lemma_elsewhere_joined(levels, transcribers);
    lemma_elsewhere_joined(levels + transcribers, sinks);
    lemma_elsewhere_joined(levels + transcribers + sinks, presenters);
    lemma_elsewhere_joined(levels + transcribers + sinks + presenters, none);
    lemma_elsewhere_joined(levels + transcribers + sinks + presenters + none, profiles);
    let rest = levels + transcribers + sinks + presenters + none + profiles;
    assert(config_errors(config) =~= audio + rest);
    lemma_reports_joined(audio, rest, "audio.sample_rate"@);
    lemma_reports_joined(audio, rest, "audio.channels"@);
}

proof fn lemma_reports_joined(
    first: Seq<super::error::IssueView>,
    second: Seq<super::error::IssueView>,
    path: Seq<char>,
)
    requires
        elsewhere(second),
        path.len() > 0,
        path[0] == 'a',
    ensures
        reports(first + second, path) == reports(first, path),
{
    if reports(first, path) {
        let i = choose|i: int| 0 <= i < first.len() && (#[trigger] first[i]).path == path;
        assert((first + second)[i].path == path);
    }
    if reports(first + second, path) {
        let i = choose|i: int|
            0 <= i < (first + second).len() && (#[trigger] (first + second)[i]).path == path;
        if i >= first.len() {
            assert(second[i - first.len()].path == path);
        } else {
            assert(first[i].path == path);
        }
    }
}

/// Thresholds are accepted exactly when none of the three is a number above zero and silence
/// is not at or above what counts as too quiet.
pub proof fn law_levels_are_below_full_scale_and_in_order(levels: LevelsConfig)
    ensures
        ({
            let silence = levels.silence_dbfs.value;
            let quiet = levels.too_quiet_dbfs.value;
            let speech = levels.speech_dbfs.value;
            let errors = level_errors(levels);
            &&& errors.len() == 0 <==> !(0 < silence.bits <= 0x7f80_0000) && !(0 < quiet.bits
                <= 0x7f80_0000) && !(0 < speech.bits <= 0x7f80_0000) && !(silence.rank() is Some
                && quiet.rank() is Some && silence.rank()->0 >= quiet.rank()->0)
            &&& 0 < speech.bits <= 0x7f80_0000 ==> reports(errors, "levels.speech_dbfs"@)
            &&& 0 < quiet.bits <= 0x7f80_0000 ==> reports(errors, "levels.too_quiet_dbfs"@)
            &&& 0 < silence.bits <= 0x7f80_0000 || (silence.rank() is Some && quiet.rank() is Some
                && silence.rank()->0 >= quiet.rank()->0) ==> reports(
                errors,
                "levels.silence_dbfs"@,
            )
        }),
{
    let a = above_full_scale("levels.silence_dbfs"@, levels.silence_dbfs);
    let b = above_full_scale("levels.too_quiet_dbfs"@, levels.too_quiet_dbfs);
    let c = above_full_scale("levels.speech_dbfs"@, levels.speech_dbfs);
    let errors = level_errors(levels);
    if a.len() > 0 {
        assert(errors[0].path == "levels.silence_dbfs"@);
    }
    if b.len() > 0 {
        assert(errors[a.len() as int].path == "levels.too_quiet_dbfs"@);
    }
    if c.len() > 0 {
        assert(errors[(a.len() + b.len()) as int].path == "levels.speech_dbfs"@);
    }
    if levels.silence_dbfs.value.at_least_spec(levels.too_quiet_dbfs.value) {
        assert(errors[errors.len() - 1].path == "levels.silence_dbfs"@);
    }
}

/// A secret is accepted exactly when it names a source that is not empty. Two sources are
/// questionable, and none is an error at the secret itself.
pub proof fn law_a_secret_names_one_source(path: Seq<char>, secret: SecretRef)
    ensures
        secret_errors(path, secret).len() == 0 <==> {
            ||| secret.env is Some && secret.command is Some
            ||| secret.env is Some && secret.command is None && (secret.env->0)@.len() > 0
            ||| secret.env is None && secret.command is Some && (secret.command->0)@.len() > 0
        },
        secret.env is None && secret.command is None ==> reports(
            secret_errors(path, secret),
            path,
        ),
        secret.env is Some && secret.command is None && (secret.env->0)@.len() == 0 ==> reports(
            secret_errors(path, secret),
            path + ".env"@,
        ),
        secret.env is None && secret.command is Some && (secret.command->0)@.len() == 0
            ==> reports(secret_errors(path, secret), path + ".command"@),
        secret_warnings(path, secret).len() > 0 <==> secret.env is Some && secret.command is Some,
        secret_warnings(path, secret).len() > 0 ==> reports(secret_warnings(path, secret), path),
{
    let errors = secret_errors(path, secret);
    let warnings = secret_warnings(path, secret);
    match (secret.env, secret.command) {
        (None, None) => {
            assert(errors[0].path == path);
        },
        (Some(name), None) => {
            if name@.len() == 0 {
                assert(errors[0].path == path + ".env"@);
            }
        },
        (None, Some(command)) => {
            if command@.len() == 0 {
                assert(errors[0].path == path + ".command"@);
            }
        },
        _ => {},
    }
    if warnings.len() > 0 {
        assert(warnings[0].path == path);
    }
}

/// An address is accepted exactly when it begins with a scheme of the web, and is questionable
/// exactly when it is plain HTTP to a host that is not this one.
pub proof fn law_an_address_states_its_scheme(path: Seq<char>, url: Seq<char>)
    ensures
        url_errors(path, url).len() == 0 <==> "http://"@.is_prefix_of(url)
            || "https://"@.is_prefix_of(url),
        url_errors(path, url).len() > 0 ==> reports(url_errors(path, url), path),
        url_warnings(path, url).len() > 0 <==> "http://"@.is_prefix_of(url)
            && !crate::text::occurs(url, "://localhost"@) && !crate::text::occurs(url, "://127."@),
        url_warnings(path, url).len() > 0 ==> reports(url_warnings(path, url), path),
{
    let errors = url_errors(path, url);
    let warnings = url_warnings(path, url);
    if errors.len() > 0 {
        assert(errors[0].path == path);
    }
    if warnings.len() > 0 {
        assert(warnings[0].path == path);
    }
}

/// A transcriber is accepted exactly when it may take some time, is tried at least once, and
/// its own kind is complete: a key, an address and a temperature from zero to one; an address;
/// or a command.
pub proof fn law_a_transcriber_is_accepted_when_complete(
    name: Seq<char>,
    transcriber: TranscriberConfig,
)
    ensures
        ({
            let errors = transcriber_errors(name, transcriber);
            let base = "transcribers."@ + name;
            &&& errors.len() == 0 <==> transcriber.timeout_ms > 0 && transcriber.retry.attempts
                >= 1 && (match transcriber.kind {
                TranscriberKind::Openai(openai) => {
                    &&& secret_errors(base + ".api_key"@, openai.api_key).len() == 0
                    &&& "http://"@.is_prefix_of(openai.base_url@) || "https://"@.is_prefix_of(
                        openai.base_url@,
                    )
                    &&& openai.temperature matches Some(temperature) ==> temperature.value.bits
                        <= 0x3f80_0000 || temperature.value.bits == 0x8000_0000
                },
                TranscriberKind::Http(http) => "http://"@.is_prefix_of(http.url@)
                    || "https://"@.is_prefix_of(http.url@),
                TranscriberKind::Command(command) => command.cmd@.len() > 0,
            })
            &&& transcriber.timeout_ms == 0 ==> reports(errors, base + ".timeout_ms"@)
            &&& transcriber.retry.attempts == 0 ==> reports(errors, base + ".retry.attempts"@)
            &&& (transcriber.kind matches TranscriberKind::Command(command) && command.cmd@.len()
                == 0) ==> reports(errors, base + ".cmd"@)
            &&& (transcriber.kind matches TranscriberKind::Http(http) && !(
            "http://"@.is_prefix_of(http.url@) || "https://"@.is_prefix_of(http.url@)))
                ==> reports(errors, base + ".url"@)
            &&& (transcriber.kind matches TranscriberKind::Openai(openai) && !(
            "http://"@.is_prefix_of(openai.base_url@) || "https://"@.is_prefix_of(
                openai.base_url@,
            ))) ==> reports(errors, base + ".base_url"@)
            &&& (transcriber.kind matches TranscriberKind::Openai(openai)
                && openai.temperature is Some && 0x3f80_0000 < (
            openai.temperature->0).value.bits < 0x8000_0000) ==> reports(
                errors,
                base + ".temperature"@,
            )
        }),
{
    let errors = transcriber_errors(name, transcriber);
    let base = "transcribers."@ + name;
    let slow = if transcriber.timeout_ms == 0 {
        1int
    } else {
        0
    };
    let tried = if transcriber.retry.attempts == 0 {
        1int
    } else {
        0
    };
    if slow == 1 {
        assert(errors[0].path == base + ".timeout_ms"@);
    }
    if tried == 1 {
        assert(errors[slow].path == base + ".retry.attempts"@);
    }
    match transcriber.kind {
        TranscriberKind::Openai(openai) => {
            let secret = secret_errors(base + ".api_key"@, openai.api_key);
            let address = url_errors(base + ".base_url"@, openai.base_url@);
            if address.len() > 0 {
                assert(errors[slow + tried + secret.len()].path == base + ".base_url"@);
            }
            if openai.temperature is Some && !is_temperature((openai.temperature->0).value) {
                assert(errors[errors.len() - 1].path == base + ".temperature"@);
            }
        },
        TranscriberKind::Http(http) => {
            if errors.len() > slow + tried {
                assert(errors[slow + tried].path == base + ".url"@);
            }
        },
        TranscriberKind::Command(command) => {
            if errors.len() > slow + tried {
                assert(errors[slow + tried].path == base + ".cmd"@);
            }
        },
    }
}

/// A callback is accepted exactly when it may take some time, is tried at least once, and has
/// its command, its address or its path.
pub proof fn law_a_callback_is_accepted_when_complete(name: Seq<char>, sink: SinkConfig)
    ensures
        ({
            let errors = sink_errors(name, sink);
            let base = "sinks."@ + name;
            &&& errors.len() == 0 <==> sink.timeout_ms > 0 && sink.retry.attempts >= 1 && (
            match sink.kind {
                SinkKind::Command(command) => command.cmd@.len() > 0,
                SinkKind::Http(http) => "http://"@.is_prefix_of(http.url@)
                    || "https://"@.is_prefix_of(http.url@),
                SinkKind::File(file) => file.path@.len() > 0,
                SinkKind::Clipboard(_) => true,
                SinkKind::Type(_) => true,
                SinkKind::Notify(_) => true,
            })
            &&& sink.timeout_ms == 0 ==> reports(errors, base + ".timeout_ms"@)
            &&& sink.retry.attempts == 0 ==> reports(errors, base + ".retry.attempts"@)
            &&& (sink.kind matches SinkKind::Command(command) && command.cmd@.len() == 0)
                ==> reports(errors, base + ".cmd"@)
            &&& (sink.kind matches SinkKind::File(file) && file.path@.len() == 0) ==> reports(
                errors,
                base + ".path"@,
            )
            &&& (sink.kind matches SinkKind::Http(http) && !("http://"@.is_prefix_of(http.url@)
                || "https://"@.is_prefix_of(http.url@))) ==> reports(errors, base + ".url"@)
            &&& (sink.kind matches SinkKind::Http(http) && sink_warnings(name, sink)
                == url_warnings(base + ".url"@, http.url@)) || (!(sink.kind is Http)
                && sink_warnings(name, sink).len() == 0)
        }),
{
    let errors = sink_errors(name, sink);
    let base = "sinks."@ + name;
    let slow = if sink.timeout_ms == 0 {
        1int
    } else {
        0
    };
    let tried = if sink.retry.attempts == 0 {
        1int
    } else {
        0
    };
    if slow == 1 {
        assert(errors[0].path == base + ".timeout_ms"@);
    }
    if tried == 1 {
        assert(errors[slow].path == base + ".retry.attempts"@);
    }
    if errors.len() > slow + tried {
        match sink.kind {
            SinkKind::Command(_) => {
                assert(errors[slow + tried].path == base + ".cmd"@);
            },
            SinkKind::Http(_) => {
                assert(errors[slow + tried].path == base + ".url"@);
            },
            SinkKind::File(_) => {
                assert(errors[slow + tried].path == base + ".path"@);
            },
            _ => {},
        }
    }
}

/// The times of a profile are accepted exactly when there is a watchdog, the whole session may
/// last at least as long as one recording, there may be a segment, and the look-back is at
/// most thirty seconds.
pub proof fn law_a_profile_bounds_its_recordings(base: Seq<char>, profile: Profile)
    ensures
        ({
            let errors = timing_errors(base, profile);
            &&& errors.len() == 0 <==> profile.session.max_recording_secs >= 1
                && profile.session.max_recording_secs <= profile.session.max_total_secs
                && profile.continuation.max_segments >= 1 && profile.capture.pre_roll_ms <= 30
                * 1000
            &&& profile.session.max_recording_secs == 0 ==> reports(
                errors,
                base + ".session.max_recording_secs"@,
            )
            &&& profile.session.max_recording_secs > profile.session.max_total_secs ==> reports(
                errors,
                base + ".session.max_total_secs"@,
            )
            &&& profile.continuation.max_segments == 0 ==> reports(
                errors,
                base + ".continuation.max_segments"@,
            )
            &&& profile.capture.pre_roll_ms > 30 * 1000 ==> reports(
                errors,
                base + ".capture.pre_roll_ms"@,
            )
        }),
{
    let errors = timing_errors(base, profile);
    let a = if profile.session.max_recording_secs == 0 {
        1int
    } else {
        0
    };
    let b = if profile.session.max_total_secs < profile.session.max_recording_secs {
        1int
    } else {
        0
    };
    if a == 1 {
        assert(errors[0].path == base + ".session.max_recording_secs"@);
    }
    if b == 1 {
        assert(errors[a].path == base + ".session.max_total_secs"@);
    }
    if profile.continuation.max_segments == 0 {
        assert(errors[a + b].path == base + ".continuation.max_segments"@);
    }
    if profile.capture.pre_roll_ms > 30_000 {
        assert(errors[errors.len() - 1].path == base + ".capture.pre_roll_ms"@);
    }
}

/// Capturing on demand makes three settings pointless, and each that is set is questionable;
/// in any other mode none is.
pub proof fn law_on_demand_makes_settings_pointless(base: Seq<char>, profile: Profile)
    ensures
        ({
            let warnings = on_demand_warnings(base, profile);
            &&& warnings.len() == 0 <==> profile.capture.mode != CaptureMode::OnDemand || (
            profile.capture.pre_roll_ms == 0 && profile.capture.idle_release_secs == 0
                && profile.continuation.gap != GapMode::Keep)
            &&& profile.capture.mode == CaptureMode::OnDemand && profile.capture.pre_roll_ms > 0
                ==> reports(warnings, base + ".capture.pre_roll_ms"@)
            &&& profile.capture.mode == CaptureMode::OnDemand && profile.capture.idle_release_secs
                > 0 ==> reports(warnings, base + ".capture.idle_release_secs"@)
            &&& profile.capture.mode == CaptureMode::OnDemand && profile.continuation.gap
                == GapMode::Keep ==> reports(warnings, base + ".continuation.gap"@)
        }),
{
    let warnings = on_demand_warnings(base, profile);
    if profile.capture.mode == CaptureMode::OnDemand {
        let a = if profile.capture.pre_roll_ms > 0 {
            1int
        } else {
            0
        };
        if a == 1 {
            assert(warnings[0].path == base + ".capture.pre_roll_ms"@);
        }
        if profile.capture.idle_release_secs > 0 {
            assert(warnings[a].path == base + ".capture.idle_release_secs"@);
        }
        if profile.continuation.gap == GapMode::Keep {
            assert(warnings[warnings.len() - 1].path == base + ".continuation.gap"@);
        }
    }
}

/// A profile that captures as it says is questionable exactly when a sink of its own needs a
/// transcript that nothing produces, or when it neither transcribes nor delivers.
pub proof fn law_a_profile_without_a_transcriber_cannot_feed_text(
    config: Config,
    base: Seq<char>,
    name: Seq<char>,
    profile: Profile,
)
    ensures
        ({
            let warnings = coherence_warnings(config, base, name, profile);
            let starved = profile.transcriber is None && exists|i: int|
                0 <= i < profile.sinks@.len() && is_text_only(
                    config,
                    (#[trigger] profile.sinks@[i])@,
                );
            let idle = profile.transcriber is None && profile.sinks@.len() == 0;
            &&& warnings.len() == 0 <==> on_demand_warnings(base, profile).len() == 0 && !starved
                && !idle
            &&& starved ==> reports(warnings, base + ".sinks"@)
            &&& idle ==> reports(warnings, base)
        }),
{
    let warnings = coherence_warnings(config, base, name, profile);
    lemma_text_only_found(config, profile.sinks@);
    let before = on_demand_warnings(base, profile).len() as int;
    if profile.transcriber is None && text_only_quoted(config, profile.sinks@).len() > 0 {
        assert(warnings[before].path == base + ".sinks"@);
    }
    if profile.transcriber is None && profile.sinks@.len() == 0 {
        assert(warnings[warnings.len() - 1].path == base);
    }
}

proof fn lemma_text_only_found(config: Config, sinks: Seq<String>)
    ensures
        text_only_quoted(config, sinks).len() > 0 <==> exists|i: int|
            0 <= i < sinks.len() && is_text_only(config, (#[trigger] sinks[i])@),
    decreases sinks.len(),
{
    if sinks.len() > 0 {
        let shorter = sinks.drop_last();
        lemma_text_only_found(config, shorter);
        assert(sinks[sinks.len() - 1] == sinks.last());
        if exists|i: int| 0 <= i < shorter.len() && is_text_only(config, (#[trigger] shorter[i])@) {
            let i = choose|i: int|
                0 <= i < shorter.len() && is_text_only(config, (#[trigger] shorter[i])@);
            assert(is_text_only(config, sinks[i]@));
        } else if !is_text_only(config, sinks.last()@) {
            assert forall|i: int| 0 <= i < sinks.len() implies !is_text_only(
                config,
                (#[trigger] sinks[i])@,
            ) by {
                if i < shorter.len() {
                    assert(shorter[i] == sinks[i]);
                }
            }
        }
    }
}

proof fn lemma_gathered_nothing<T>(
    items: Seq<T>,
    rule: spec_fn(T) -> Seq<super::error::IssueView>,
)
    ensures
        crate::lists::gathered(items, rule).len() == 0 <==> forall|i: int|
            0 <= i < items.len() ==> rule(#[trigger] items[i]).len() == 0,
    decreases items.len(),
{
    if items.len() > 0 {
        let shorter = items.drop_last();
        lemma_gathered_nothing(shorter, rule);
        if crate::lists::gathered(items, rule).len() == 0 {
            assert forall|i: int| 0 <= i < items.len() implies rule(#[trigger] items[i]).len()
                == 0 by {
                if i < shorter.len() {
                    assert(rule(shorter[i]).len() == 0);
                }
            }
        }
        if forall|i: int| 0 <= i < items.len() ==> rule(#[trigger] items[i]).len() == 0 {
            assert forall|i: int| 0 <= i < shorter.len() implies rule(#[trigger] shorter[i]).len()
                == 0 by {
                assert(shorter[i] == items[i]);
            }
            assert(rule(items[items.len() - 1]).len() == 0);
        }
    }
}

/// A profile is accepted exactly when the transcriber and every sink it names are defined and
/// its times are.
pub proof fn law_a_profile_refers_to_what_is_defined(
    config: Config,
    name: Seq<char>,
    profile: Profile,
)
    ensures
        profile_errors(config, name, profile).len() == 0 <==> {
            &&& profile.transcriber matches Some(transcriber) ==> crate::names::has_name(
                config.transcribers@,
                transcriber@,
            )
            &&& forall|i: int|
                0 <= i < profile.sinks@.len() ==> crate::names::has_name(
                    config.sinks@,
                    (#[trigger] profile.sinks@[i])@,
                )
            &&& timing_errors("profiles."@ + name, profile).len() == 0
        },
{
    let base = "profiles."@ + name;
    let rule = sink_reference_rule(config, base);
    lemma_gathered_nothing(profile.sinks@, rule);
    if forall|i: int| 0 <= i < profile.sinks@.len() ==> rule(#[trigger] profile.sinks@[i]).len() == 0 {
        assert forall|i: int| 0 <= i < profile.sinks@.len() implies crate::names::has_name(
            config.sinks@,
            (#[trigger] profile.sinks@[i])@,
        ) by {
            assert(rule(profile.sinks@[i]).len() == 0);
        }
    }
}

/// A configuration is accepted exactly when each of its parts is: its audio, its levels, every
/// transcriber, sink and presenter, its feedback, and every profile, of which it has at least
/// one. No part is left out.
pub proof fn law_a_configuration_is_accepted_when_every_part_is(config: Config)
    ensures
        config_errors(config).len() == 0 <==> {
            &&& audio_errors(config.audio).len() == 0
            &&& level_errors(config.levels).len() == 0
            &&& forall|i: int|
                0 <= i < config.transcribers@.len() ==> transcriber_errors(
                    (#[trigger] config.transcribers@[i]).0@,
                    config.transcribers@[i].1,
                ).len() == 0
            &&& forall|i: int|
                0 <= i < config.sinks@.len() ==> sink_errors(
                    (#[trigger] config.sinks@[i]).0@,
                    config.sinks@[i].1,
                ).len() == 0
            &&& forall|i: int|
                0 <= i < config.presenters@.len() ==> ((
                #[trigger] config.presenters@[i]).1.kind matches PresenterKind::Command(command)
                    ==> command.cmd@.len() > 0)
            &&& forall|i: int|
                0 <= i < config.feedback.presenters@.len() ==> crate::names::has_name(
                    config.presenters@,
                    (#[trigger] config.feedback.presenters@[i])@,
                )
            &&& config.feedback.enabled ==> config.feedback.level_interval_ms >= 1
            &&& config.profiles@.len() >= 1
            &&& forall|i: int|
                0 <= i < config.profiles@.len() ==> profile_errors(
                    config,
                    (#[trigger] config.profiles@[i]).0@,
                    config.profiles@[i].1,
                ).len() == 0
        },
{
    lemma_gathered_nothing(config.transcribers@, transcriber_rule());
    lemma_gathered_nothing(config.sinks@, sink_rule());
    lemma_gathered_nothing(config.presenters@, presenter_rule());
    lemma_gathered_nothing(config.feedback.presenters@, feedback_rule(config));
    lemma_gathered_nothing(config.profiles@, profile_rule(config));
    let transcribers = config.transcribers@;
    let sinks = config.sinks@;
    let presenters = config.presenters@;
    let listed = config.feedback.presenters@;
    let profiles = config.profiles@;
    assert(forall|i: int|
        0 <= i < transcribers.len() ==> transcriber_rule()(#[trigger] transcribers[i])
            == transcriber_errors(transcribers[i].0@, transcribers[i].1));
    assert(forall|i: int|
        0 <= i < sinks.len() ==> sink_rule()(#[trigger] sinks[i]) == sink_errors(
            sinks[i].0@,
            sinks[i].1,
        ));
    assert(forall|i: int|
        0 <= i < presenters.len() ==> (presenter_rule()(#[trigger] presenters[i]).len() == 0) == (
        presenters[i].1.kind matches PresenterKind::Command(command) ==> command.cmd@.len() > 0));
    assert(forall|i: int|
        0 <= i < listed.len() ==> (feedback_rule(config)(#[trigger] listed[i]).len() == 0)
            == crate::names::has_name(presenters, listed[i]@));
    assert(forall|i: int|
        0 <= i < profiles.len() ==> profile_rule(config)(#[trigger] profiles[i])
            == profile_errors(config, profiles[i].0@, profiles[i].1));
}

/// Something defined is questionable exactly when nothing uses it: a transcriber or a sink
/// when no profile names it, a presenter when the feedback does not list it.
pub proof fn law_what_nothing_uses_is_questionable(config: Config)
    ensures
        unused_warnings(config).len() == 0 <==> {
            &&& forall|i: int|
                0 <= i < config.transcribers@.len() ==> transcriber_is_used(
                    config,
                    (#[trigger] config.transcribers@[i]).0@,
                )
            &&& forall|i: int|
                0 <= i < config.sinks@.len() ==> sink_is_used(
                    config,
                    (#[trigger] config.sinks@[i]).0@,
                )
            &&& forall|i: int|
                0 <= i < config.presenters@.len() ==> crate::text::texts(
                    config.feedback.presenters@,
                ).contains((#[trigger] config.presenters@[i]).0@)
        },
{
    lemma_gathered_nothing(config.transcribers@, unused_transcriber_rule(config));
    lemma_gathered_nothing(config.sinks@, unused_sink_rule(config));
    lemma_gathered_nothing(config.presenters@, unused_presenter_rule(config));
    let transcribers = config.transcribers@;
    let sinks = config.sinks@;
    let presenters = config.presenters@;
    assert(forall|i: int|
        0 <= i < transcribers.len() ==> (unused_transcriber_rule(config)(
            #[trigger] transcribers[i],
        ).len() == 0) == transcriber_is_used(config, transcribers[i].0@));
    assert(forall|i: int|
        0 <= i < sinks.len() ==> (unused_sink_rule(config)(#[trigger] sinks[i]).len() == 0)
            == sink_is_used(config, sinks[i].0@));
    assert(forall|i: int|
        0 <= i < presenters.len() ==> (unused_presenter_rule(config)(
            #[trigger] presenters[i],
        ).len() == 0) == crate::text::texts(config.feedback.presenters@).contains(
            presenters[i].0@,
        ));
}

/// A configuration is unquestionable exactly when each of its parts is.
pub proof fn law_a_configuration_is_unquestionable_when_every_part_is(config: Config)
    ensures
        config_warnings(config).len() == 0 <==> {
            &&& config.audio.channels != 2
            &&& forall|i: int|
                0 <= i < config.transcribers@.len() ==> transcriber_warnings(
                    (#[trigger] config.transcribers@[i]).0@,
                    config.transcribers@[i].1,
                ).len() == 0
            &&& forall|i: int|
                0 <= i < config.sinks@.len() ==> sink_warnings(
                    (#[trigger] config.sinks@[i]).0@,
                    config.sinks@[i].1,
                ).len() == 0
            &&& config.feedback.enabled ==> config.feedback.presenters@.len() > 0
            &&& forall|i: int|
                0 <= i < config.profiles@.len() ==> profile_warnings(
                    config,
                    (#[trigger] config.profiles@[i]).0@,
                    config.profiles@[i].1,
                ).len() == 0
            &&& unused_warnings(config).len() == 0
        },
{
    lemma_gathered_nothing(config.transcribers@, transcriber_doubts());
    lemma_gathered_nothing(config.sinks@, sink_doubts());
    lemma_gathered_nothing(config.profiles@, profile_doubts(config));
    let transcribers = config.transcribers@;
    let sinks = config.sinks@;
    let profiles = config.profiles@;
    assert(forall|i: int|
        0 <= i < transcribers.len() ==> transcriber_doubts()(#[trigger] transcribers[i])
            == transcriber_warnings(transcribers[i].0@, transcribers[i].1));
    assert(forall|i: int|
        0 <= i < sinks.len() ==> sink_doubts()(#[trigger] sinks[i]) == sink_warnings(
            sinks[i].0@,
            sinks[i].1,
        ));
    assert(forall|i: int|
        0 <= i < profiles.len() ==> profile_doubts(config)(#[trigger] profiles[i])
            == profile_warnings(config, profiles[i].0@, profiles[i].1));
}

/// A sink that is listed again is questionable once for every time it is: one more sink adds a
/// warning exactly when it is among those before it.
pub proof fn law_a_sink_listed_again_is_questionable(
    base: Seq<char>,
    sinks: Seq<String>,
    sink: String,
)
    ensures
        ({
            let again = exists|i: int| 0 <= i < sinks.len() && (#[trigger] sinks[i])@ == sink@;
            let before = repeat_warnings(base, sinks);
            let after = repeat_warnings(base, sinks.push(sink));
            &&& repeat_warnings(base, Seq::empty()).len() == 0
            &&& !again ==> after == before
            &&& again ==> after == before.push(
                super::error::issue(
                    base + ".sinks"@,
                    crate::text::quoted(sink@) + " is listed twice and will run twice"@,
                ),
            )
        }),
{
    assert(sinks.push(sink).drop_last() =~= sinks);
    let names = crate::text::texts(sinks);
    if names.contains(sink@) {
        let i = choose|i: int| 0 <= i < names.len() && names[i] == sink@;
        assert(sinks[i]@ == sink@);
    } else {
        assert forall|i: int| 0 <= i < sinks.len() implies (#[trigger] sinks[i])@ != sink@ by {
            assert(names[i] == sinks[i]@);
        }
    }
    let before = repeat_warnings(base, sinks);
    let issue = super::error::issue(
        base + ".sinks"@,
        crate::text::quoted(sink@) + " is listed twice and will run twice"@,
    );
    assert(before + seq![issue] =~= before.push(issue));
    assert(before + Seq::<super::error::IssueView>::empty() =~= before);
}

/// A transcriber is used when a profile names it, and a sink when one lists it anywhere.
pub proof fn law_what_a_profile_names_is_used(config: Config, name: Seq<char>, i: int, k: int)
    requires
        0 <= i < config.profiles@.len(),
    ensures
        config.profiles@[i].1.transcriber matches Some(transcriber) ==> transcriber_is_used(
            config,
            transcriber@,
        ),
        0 <= k < config.profiles@[i].1.sinks@.len() ==> sink_is_used(
            config,
            config.profiles@[i].1.sinks@[k]@,
        ),
        (forall|j: int|
            0 <= j < config.profiles@.len() ==> (#[trigger] config.profiles@[j]).1.transcriber
                is None) ==> !transcriber_is_used(config, name),
        (forall|j: int|
            0 <= j < config.profiles@.len() ==> (#[trigger] config.profiles@[j]).1.sinks@.len()
                == 0) ==> !sink_is_used(config, name),
{
    if 0 <= k < config.profiles@[i].1.sinks@.len() {
        let names = crate::text::texts(config.profiles@[i].1.sinks@);
        assert(names[k] == config.profiles@[i].1.sinks@[k]@);
        assert(names.contains(config.profiles@[i].1.sinks@[k]@));
    }
}

/// A name that is not defined is reported with the nearest name that is, if one is close.
pub proof fn law_a_missing_name_is_reported_with_the_nearest(
    path: Seq<char>,
    what: Seq<char>,
    word: Seq<char>,
    defined: Seq<Seq<char>>,
)
    ensures
        ({
            let found = missing(path, what, word, defined);
            &&& found.path == path
            &&& found.message == "no "@ + what + " named "@ + crate::text::quoted(word)
                + " is defined"@
            &&& found.hint is None <==> forall|i: int|
                0 <= i < defined.len() ==> !super::keys::is_close(word, #[trigger] defined[i])
            &&& found.hint matches Some(hint) ==> exists|i: int|
                0 <= i < defined.len() && super::keys::is_close(word, #[trigger] defined[i])
                    && hint == "did you mean "@ + crate::text::quoted(defined[i]) + "?"@ && (
                forall|j: int|
                    0 <= j < defined.len() && super::keys::is_close(word, #[trigger] defined[j])
                        ==> super::keys::distance(word, defined[i]) <= super::keys::distance(
                        word,
                        defined[j],
                    ))
        }),
{
    super::keys::law_nearest_is_the_first_of_the_nearest(word, defined);
    if super::keys::nearest(word, defined) is Some {
        let i = super::keys::nearest(word, defined)->0;
        assert(super::keys::is_close(word, defined[i]));
    }
}

} // verus!
