//! Presenters: the things that actually show a user what is happening.
//!
//! No graphical indicator ships. What ships is a socket every subscriber reads, a command
//! that can be any script, and desktop notifications, plus the guarantee that an overlay
//! written later has no more access to the daemon than any of them.

use vstd::prelude::*;

use crate::clock::Span;
use crate::command::CommandSpec;
use crate::config::{CommandPresenter, Config, PresenterConfig, PresenterKind};
use crate::event::{Event, EventView, Stage};
use crate::names::Named;
use crate::session::record::SinkOutcomeView;
use crate::session::{InputWarningKind, SinkOutcome, SkipReason};
use crate::text::{concat, concat3, decimal_text, quote};

verus! {

/// A presenter to run.
#[derive(Debug)]
pub enum Presenter {
    /// Run a command for each event.
    Command(CommandPresenter),
    /// Raise desktop notifications; for every callback too, if so configured.
    Notify { per_sink: bool },
}

/// Whether `running` is what a configured presenter comes to. Subscribers read from the
/// socket directly, so for a socket there is nothing to run.
pub open spec fn runs_as(kind: PresenterKind, running: Option<Presenter>) -> bool {
    match kind {
        PresenterKind::Socket(_) => running is None,
        PresenterKind::Command(command) => running matches Some(Presenter::Command(given))
            && given.cmd@ == command.cmd@ && given.env@ == command.env@ && given.events@
            == command.events@,
        PresenterKind::Notify(notify) => running == Some(
            Presenter::Notify { per_sink: notify.per_sink },
        ),
    }
}

/// Whether `running` are the presenters that the names stand for, in order: the ones that are
/// defined and have something to run.
pub open spec fn started(
    names: Seq<String>,
    defined: Seq<(String, PresenterConfig)>,
    running: Seq<Presenter>,
) -> bool
    decreases names.len(),
{
    if names.len() == 0 {
        running.len() == 0
    } else {
        match crate::names::lookup(defined, names.last()@) {
            Some(presenter) => if presenter.kind is Socket {
                started(names.drop_last(), defined, running)
            } else {
                &&& running.len() > 0
                &&& runs_as(presenter.kind, Some(running.last()))
                &&& started(names.drop_last(), defined, running.drop_last())
            },
            None => started(names.drop_last(), defined, running),
        }
    }
}

fn copy_command(command: &CommandPresenter) -> (result: CommandPresenter)
    ensures
        result.cmd@ == command.cmd@,
        result.env@ == command.env@,
        result.events@ == command.events@,
{
    let cmd = command.cmd.clone();
    let events = command.events.clone();
    let env = command.env.clone();
    proof {
        assert(cmd@ =~= command.cmd@);
        assert(events@ =~= command.events@);
        assert forall|i: int| 0 <= i < env@.len() implies env@[i] == command.env@[i] by {
            assert(cloned::<String>(command.env@[i].1, env@[i].1));
        }
        assert(env@ =~= command.env@);
    }
    CommandPresenter { cmd, env, events }
}

/// The presenters the configuration asks for, in order. With feedback off, none is started.
pub fn start(config: &Config) -> (result: Vec<Presenter>)
    ensures
        if config.feedback.enabled {
            started(config.feedback.presenters@, config.presenters@, result@)
        } else {
            result@.len() == 0
        },
{
    let mut out: Vec<Presenter> = Vec::new();
    if !config.feedback.enabled {
        return out;
    }
    let names = &config.feedback.presenters;
    let mut i: usize = 0;
    while i < names.len()
        invariant
            i <= names.len(),
            names@ == config.feedback.presenters@,
            started(names@.take(i as int), config.presenters@, out@),
        decreases names.len() - i,
    {
        let ghost before = out@;
        assert(names@.take(i + 1).drop_last() =~= names@.take(i as int));
        assert(names@.take(i + 1).last() == names@[i as int]);
        // A name with no entry was already reported when the configuration was checked.
        match config.presenters.get(names[i].as_str()) {
            Some(presenter) => match &presenter.kind {
                PresenterKind::Socket(_) => {},
                PresenterKind::Command(command) => {
                    out.push(Presenter::Command(copy_command(command)));
                    assert(out@.drop_last() =~= before);
                },
                PresenterKind::Notify(notify) => {
                    out.push(Presenter::Notify { per_sink: notify.per_sink });
                    assert(out@.drop_last() =~= before);
                },
            },
            None => {},
        }
        i += 1;
    }
    assert(names@.take(i as int) =~= names@);
    out
}

/// How long a presenter may take over an event.
///
/// Short: an indicator that takes longer than this to react has already missed the moment,
/// and a slow one must not build up a backlog of processes.
pub const PRESENTER_SECS: u64 = 5;

/// What to run for an event line: the configured command, with the event on standard input.
pub fn command_for(command: &CommandPresenter, line: String) -> (result: CommandSpec)
    ensures
        result.argv@ == command.cmd@,
        result.env@ == command.env@,
        result.cwd is None,
        result.stdin == Some(line),
        result.timeout == (Span { seconds: PRESENTER_SECS, nanos: 0 }),
{
    let copy = copy_command(command);
    CommandSpec::new(copy.cmd).with_env(copy.env).with_stdin(Some(line)).with_timeout(
        Span::from_secs(PRESENTER_SECS),
    )
}

/// What a problem with the input is called in a notification.
pub open spec fn warning_name(kind: InputWarningKind) -> Seq<char> {
    match kind {
        InputWarningKind::NoDevice => "NoDevice"@,
        InputWarningKind::DeviceMuted => "DeviceMuted"@,
        InputWarningKind::Silence => "Silence"@,
        InputWarningKind::TooQuiet => "TooQuiet"@,
        InputWarningKind::Clipping => "Clipping"@,
        InputWarningKind::Xrun => "Xrun"@,
    }
}

/// What a problem with the input is called in a notification.
pub fn name_warning(kind: InputWarningKind) -> (result: &'static str)
    ensures
        result@ == warning_name(kind),
{
    match kind {
        InputWarningKind::NoDevice => "NoDevice",
        InputWarningKind::DeviceMuted => "DeviceMuted",
        InputWarningKind::Silence => "Silence",
        InputWarningKind::TooQuiet => "TooQuiet",
        InputWarningKind::Clipping => "Clipping",
        InputWarningKind::Xrun => "Xrun",
    }
}

/// What a stage is called in a notification.
pub open spec fn stage_name(stage: Stage) -> Seq<char> {
    match stage {
        Stage::Capture => "Capture"@,
        Stage::Storage => "Storage"@,
        Stage::Transcription => "Transcription"@,
        Stage::Sink => "Sink"@,
        Stage::Config => "Config"@,
    }
}

fn name_stage(stage: Stage) -> (result: &'static str)
    ensures
        result@ == stage_name(stage),
{
    match stage {
        Stage::Capture => "Capture",
        Stage::Storage => "Storage",
        Stage::Transcription => "Transcription",
        Stage::Sink => "Sink",
        Stage::Config => "Config",
    }
}

/// What a reason for skipping a callback is called in a notification.
pub open spec fn reason_name(reason: SkipReason) -> Seq<char> {
    match reason {
        SkipReason::NoTranscript => "NoTranscript"@,
        SkipReason::TranscriptionFailed => "TranscriptionFailed"@,
        SkipReason::EarlierSinkFailed => "EarlierSinkFailed"@,
        SkipReason::Cancelled => "Cancelled"@,
    }
}

fn name_reason(reason: SkipReason) -> (result: &'static str)
    ensures
        result@ == reason_name(reason),
{
    match reason {
        SkipReason::NoTranscript => "NoTranscript",
        SkipReason::TranscriptionFailed => "TranscriptionFailed",
        SkipReason::EarlierSinkFailed => "EarlierSinkFailed",
        SkipReason::Cancelled => "Cancelled",
    }
}

/// What a callback's outcome is called in a notification.
pub open spec fn outcome_name(outcome: SinkOutcomeView) -> Seq<char> {
    match outcome {
        SinkOutcomeView::Okay => "Ok"@,
        SinkOutcomeView::Failed { error } => "Failed { error: "@ + crate::text::quoted(error)
            + " }"@,
        SinkOutcomeView::Skipped { reason } => "Skipped { reason: "@ + reason_name(reason) + " }"@,
    }
}

fn name_outcome(outcome: &SinkOutcome) -> (result: String)
    ensures
        result@ == outcome_name(outcome@),
{
    match outcome {
        SinkOutcome::Okay => "Ok".to_owned(),
        SinkOutcome::Failed { error } => concat3(
            "Failed { error: ",
            quote(error.as_str()).as_str(),
            " }",
        ),
        SinkOutcome::Skipped { reason } => concat3("Skipped { reason: ", name_reason(*reason), " }"),
    }
}

/// The body and the urgency of the notification an event is worth, if it is worth one.
pub open spec fn notice(event: EventView, per_sink: bool) -> Option<(Seq<char>, Seq<char>)> {
    match event {
        EventView::InputWarning { kind, .. } => Some(
            ("microphone: "@ + warning_name(kind), "critical"@),
        ),
        EventView::PipelineFinished { ok, failed, skipped, .. } => Some(
            (
                crate::text::decimal(ok as nat) + " done, "@ + crate::text::decimal(failed as nat)
                    + " failed, "@ + crate::text::decimal(skipped as nat) + " skipped"@,
                if failed > 0 {
                    "critical"@
                } else {
                    "low"@
                },
            ),
        ),
        EventView::SinkFinished { name, outcome, .. } => if per_sink {
            Some((name + ": "@ + outcome_name(outcome), "low"@))
        } else {
            None
        },
        EventView::Error { stage, message } => Some(
            (stage_name(stage) + ": "@ + message, "critical"@),
        ),
        _ => None,
    }
}

/// What to run to raise the notification an event is worth, if it is worth one.
///
/// Only the coarse milestones are: notifications cannot show a level meter or a live progress
/// list, but they work on any desktop with nothing else installed.
pub fn notify(event: &Event, per_sink: bool) -> (result: Option<CommandSpec>)
    ensures
        match notice(event@, per_sink) {
            Some((body, urgency)) => {
                &&& result matches Some(spec)
                &&& crate::text::texts(spec.argv@) == seq![
                    "notify-send"@,
                    "-u"@,
                    urgency,
                    "--"@,
                    "voice-commander"@,
                    body,
                ]
                &&& spec.env@.len() == 0
                &&& spec.cwd is None
                &&& spec.stdin is None
                &&& spec.timeout == (Span { seconds: PRESENTER_SECS, nanos: 0 })
            },
            None => result is None,
        },
{
    let (body, urgency): (String, &str) = match event {
        Event::InputWarning { kind, .. } => (
            concat("microphone: ", name_warning(*kind)),
            "critical",
        ),
        Event::PipelineFinished { ok, failed, skipped, .. } => {
            let mut body = concat(decimal_text(*ok as u64).as_str(), " done, ");
            body.append(decimal_text(*failed as u64).as_str());
            body.append(" failed, ");
            body.append(decimal_text(*skipped as u64).as_str());
            body.append(" skipped");
            (
                body,
                if *failed > 0 {
                    "critical"
                } else {
                    "low"
                },
            )
        },
        Event::SinkFinished { name, outcome, .. } => {
            if !per_sink {
                return None;
            }
            (concat3(name.as_str(), ": ", name_outcome(outcome).as_str()), "low")
        },
        Event::Error { stage, message } => (
            concat3(name_stage(*stage), ": ", message.as_str()),
            "critical",
        ),
        _ => {
            return None;
        },
    };
    let argv: Vec<String> = vec![
        "notify-send".to_owned(),
        "-u".to_owned(),
        urgency.to_owned(),
        "--".to_owned(),
        "voice-commander".to_owned(),
        body,
    ];
    assert(crate::text::texts(argv@) =~= seq![
        "notify-send"@,
        "-u"@,
        urgency@,
        "--"@,
        "voice-commander"@,
        body@,
    ]);
    Some(CommandSpec::new(argv).with_timeout(Span::from_secs(PRESENTER_SECS)))
}

/// Names with no entry are passed over: nothing is started for them.
pub proof fn law_an_undefined_presenter_is_passed_over(
    names: Seq<String>,
    defined: Seq<(String, PresenterConfig)>,
    running: Seq<Presenter>,
)
    requires
        started(names, defined, running),
        forall|i: int|
            0 <= i < names.len() ==> crate::names::lookup(defined, (#[trigger] names[i])@) is None,
    ensures
        running.len() == 0,
    decreases names.len(),
{
    if names.len() > 0 {
        assert(names[names.len() - 1] == names.last());
        assert forall|i: int| 0 <= i < names.drop_last().len() implies crate::names::lookup(
            defined,
            (#[trigger] names.drop_last()[i])@,
        ) is None by {
            assert(names.drop_last()[i] == names[i]);
        }
        law_an_undefined_presenter_is_passed_over(names.drop_last(), defined, running);
    }
}

/// A failure is always worth a notification, and a critical one.
pub proof fn law_failures_are_critical(event: EventView, per_sink: bool)
    requires
        event is Error || event is InputWarning || (event matches EventView::PipelineFinished {
            failed,
            ..
        } && failed > 0),
    ensures
        notice(event, per_sink) matches Some(raised) && raised.1 == "critical"@,
{
}

/// What is notified of, with what urgency: every input warning and every error critically, the
/// end of a run critically exactly when a callback failed, a single callback only when asked
/// for, and nothing else.
pub proof fn law_a_notice_tells_what_needs_attention(event: EventView, per_sink: bool)
    ensures
        notice(event, per_sink) is Some <==> event is InputWarning || event is Error
            || event is PipelineFinished || (event is SinkFinished && per_sink),
        event matches EventView::PipelineFinished { ok, failed, skipped, .. } ==> notice(
            event,
            per_sink,
        ) == Some(
            (
                crate::text::decimal(ok as nat) + " done, "@ + crate::text::decimal(failed as nat)
                    + " failed, "@ + crate::text::decimal(skipped as nat) + " skipped"@,
                if failed == 0 {
                    "low"@
                } else {
                    "critical"@
                },
            ),
        ),
        event matches EventView::Error { stage, message } ==> notice(event, per_sink) == Some(
            (stage_name(stage) + ": "@ + message, "critical"@),
        ),
        event matches EventView::InputWarning { kind, .. } ==> notice(event, per_sink) == Some(
            ("microphone: "@ + warning_name(kind), "critical"@),
        ),
        event matches EventView::SinkFinished { name, outcome, .. } ==> (per_sink ==> notice(
            event,
            per_sink,
        ) == Some((name + ": "@ + outcome_name(outcome), "low"@))),
{
}

/// One more presenter in the list starts one more of its kind, with its own command,
/// environment and events or its own setting, unless it is the socket, which runs by itself,
/// or is not defined.
pub proof fn law_a_listed_presenter_is_started(
    names: Seq<String>,
    name: String,
    defined: Seq<(String, PresenterConfig)>,
    running: Seq<Presenter>,
    more: Presenter,
)
    requires
        started(names, defined, running),
    ensures
        match crate::names::lookup(defined, name@) {
            None => started(names.push(name), defined, running),
            Some(presenter) => match presenter.kind {
                PresenterKind::Socket(_) => started(names.push(name), defined, running),
                PresenterKind::Command(command) => started(
                    names.push(name),
                    defined,
                    running.push(more),
                ) <==> (more matches Presenter::Command(given) && given.cmd@ == command.cmd@
                    && given.env@ == command.env@ && given.events@ == command.events@),
                PresenterKind::Notify(notify) => started(
                    names.push(name),
                    defined,
                    running.push(more),
                ) <==> more == (Presenter::Notify { per_sink: notify.per_sink }),
            },
        },
{
    assert(names.push(name).drop_last() =~= names);
    assert(running.push(more).drop_last() =~= running);
}

} // verus!
