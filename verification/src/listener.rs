//! The control socket: whether it can be bound, and how a client is answered.

use vstd::prelude::*;

use crate::config::{ConfigError, Issue, Loaded};
use crate::engine::Command as EngineCommand;
use crate::event::{Event, EventView, Stage};
use crate::protocol::{Command, ErrorCode, Request, Response, PROTOCOL_VERSION};
use crate::state::State;
use crate::text::{concat, concat3, contains_name, decimal_text, join, quote, trim};

verus! {

/// The longest path a Unix socket can have, in bytes.
pub const SUN_PATH_MAX: usize = 107;

/// What binding the control socket calls for.
#[derive(Debug, PartialEq, Eq)]
pub enum Bind {
    /// It cannot be bound, for this reason.
    Refuse(String),
    /// A socket left behind by a previous run has to be removed first.
    RemoveStale,
    /// Nothing is in the way.
    Proceed,
}

/// Why a path is too long for a socket.
pub open spec fn too_long_text(path: Seq<char>, bytes: nat) -> Seq<char> {
    "the socket path is "@ + crate::text::decimal(bytes)
        + " bytes, but a Unix socket path cannot exceed "@ + crate::text::decimal(107) + ": "@
        + path + "\nset a shorter one with --socket or $VOICE_COMMANDER_SOCKET"@
}

/// What binding the control socket at `path` calls for. `exists` says whether there is a file
/// there, and `running` whether a daemon answers on it.
///
/// Deleting on sight would let a second daemon steal the socket from a perfectly healthy
/// first one, and the two would then fight over the microphone. And the kernel's own words
/// for a path that is too long send people hunting for a configuration key, so this says what
/// is actually wrong instead.
pub fn bind(path: &str, exists: bool, running: bool) -> (result: Bind)
    ensures
        ({
            let bytes = vstd::utf8::encode_utf8(path@).len();
            if bytes > SUN_PATH_MAX {
                result matches Bind::Refuse(message) && message@ == too_long_text(path@, bytes)
            } else if exists && running {
                result matches Bind::Refuse(message) && message@
                    == "another voice-commander daemon is already listening on "@ + path@
            } else if exists {
                result == Bind::RemoveStale
            } else {
                result == Bind::Proceed
            }
        }),
{
    let bytes: usize = path.as_bytes().len();
    if bytes > SUN_PATH_MAX {
        let mut message = concat3(
            "the socket path is ",
            decimal_text(bytes as u64).as_str(),
            " bytes, but a Unix socket path cannot exceed ",
        );
        message.append(decimal_text(107).as_str());
        message.append(": ");
        message.append(path);
        message.append("\nset a shorter one with --socket or $VOICE_COMMANDER_SOCKET");
        return Bind::Refuse(message);
    }
    if exists && running {
        return Bind::Refuse(
            concat("another voice-commander daemon is already listening on ", path),
        );
    }
    if exists {
        Bind::RemoveStale
    } else {
        Bind::Proceed
    }
}

/// What a handled command asks the daemon to do next.
#[derive(Debug, Clone, Copy, PartialEq, Eq, Structural)]
pub enum Directive {
    Continue,
    Shutdown,
}

/// What a request calls for.
#[derive(Debug)]
pub enum Answer {
    /// This reply.
    Reply(Response, Directive),
    /// The status of the daemon, see [`State::status`].
    Status,
    /// A command to the capture thread; [`dispatched`] is the reply.
    Engine(EngineCommand),
    /// The configuration is to be read again; [`reload`] is the reply.
    Reload,
}

/// Why a client that speaks another protocol version is turned away.
pub open spec fn mismatch_text(v: u32) -> Seq<char> {
    "client speaks protocol v"@ + crate::text::decimal(v as nat) + ", this daemon speaks v"@
        + crate::text::decimal(PROTOCOL_VERSION as nat)
        + "; restart the daemon after upgrading"@
}

/// What an unknown profile is answered with: its name, and the names there are.
pub open spec fn unknown_profile_text(profile: Seq<char>, known: Seq<Seq<char>>) -> Seq<char> {
    "no profile named "@ + crate::text::quoted(profile) + "; configured profiles are: "@
        + crate::text::joined(known, ", "@)
}

/// A refusal with this code and message.
pub open spec fn refuses(answer: Answer, code: ErrorCode, message: Seq<char>) -> bool {
    answer matches Answer::Reply(Response::Error { code: given, message: text }, directive) && given
        == code && text@ == message && directive == Directive::Continue
}

/// The engine command that a command about a known profile becomes.
pub open spec fn engine_command(command: Command) -> Option<EngineCommand> {
    match command {
        Command::Start { profile } => Some(EngineCommand::Start { profile }),
        Command::Stop { profile } => Some(EngineCommand::Stop { profile }),
        Command::Toggle { profile } => Some(EngineCommand::Toggle { profile }),
        _ => None,
    }
}

/// The profile that a command is about.
pub open spec fn profile_of(command: Command) -> Option<String> {
    match command {
        Command::Start { profile } => Some(profile),
        Command::Stop { profile } => Some(profile),
        Command::Toggle { profile } => Some(profile),
        _ => None,
    }
}

/// Whether a line from a client holds nothing to answer.
pub fn is_blank(line: &str) -> (result: bool)
    ensures
        result == (crate::text::trimmed(line@).len() == 0),
{
    trim(line).as_str().is_empty()
}

/// What a request calls for; `Err` is what was wrong with a line that is none.
///
/// The profile is resolved here rather than on the capture thread so that a typo in a keybind
/// comes back as an error the user can see, instead of a log line on a thread nobody is
/// watching.
pub fn handle(request: Result<Request, String>, state: &State, version: &str) -> (result: Answer)
    ensures
        match request {
            Err(error) => refuses(result, ErrorCode::BadRequest, error@),
            Ok(request) => if request.v != PROTOCOL_VERSION {
                refuses(result, ErrorCode::VersionMismatch, mismatch_text(request.v))
            } else {
                match request.command {
                    Command::Ping => {
                        &&& result matches Answer::Reply(
                            Response::Pong { version: given, protocol },
                            directive,
                        )
                        &&& given@ == version@
                        &&& protocol == PROTOCOL_VERSION
                        &&& directive == Directive::Continue
                    },
                    Command::Status => result is Status,
                    Command::Subscribe { .. } => result == Answer::Reply(
                        Response::Subscribed,
                        Directive::Continue,
                    ),
                    Command::Reload => result is Reload,
                    Command::Shutdown => result == Answer::Reply(
                        Response::Accepted { session: None },
                        Directive::Shutdown,
                    ),
                    Command::Cancel => result == Answer::Engine(EngineCommand::Cancel),
                    command => {
                        let profile = profile_of(command)->0;
                        if crate::names::has_name(state.config.profiles@, profile@) {
                            result == Answer::Engine(engine_command(command)->0)
                        } else {
                            refuses(
                                result,
                                ErrorCode::UnknownProfile,
                                unknown_profile_text(
                                    profile@,
                                    crate::names::names_of(state.config.profiles@),
                                ),
                            )
                        }
                    },
                }
            },
        },
{
    let request = match request {
        Ok(request) => request,
        Err(error) => {
            return Answer::Reply(
                Response::Error { code: ErrorCode::BadRequest, message: error },
                Directive::Continue,
            );
        },
    };
    if request.v != PROTOCOL_VERSION {
        // Upgrading the package while the old daemon is still running is entirely normal, so
        // say exactly what happened and what to do about it.
        let mut message = concat3(
            "client speaks protocol v",
            decimal_text(request.v as u64).as_str(),
            ", this daemon speaks v",
        );
        message.append(decimal_text(PROTOCOL_VERSION as u64).as_str());
        message.append("; restart the daemon after upgrading");
        return Answer::Reply(
            Response::Error { code: ErrorCode::VersionMismatch, message },
            Directive::Continue,
        );
    }
    match request.command {
        Command::Ping => Answer::Reply(
            Response::Pong { version: version.to_owned(), protocol: PROTOCOL_VERSION },
            Directive::Continue,
        ),
        Command::Status => Answer::Status,
        Command::Subscribe { .. } => Answer::Reply(Response::Subscribed, Directive::Continue),
        Command::Reload => Answer::Reload,
        Command::Shutdown => Answer::Reply(
            Response::Accepted { session: None },
            Directive::Shutdown,
        ),
        Command::Cancel => Answer::Engine(EngineCommand::Cancel),
        Command::Start { profile } => {
            if state.knows_profile(profile.as_str()) {
                Answer::Engine(EngineCommand::Start { profile })
            } else {
                unknown_profile(profile.as_str(), state)
            }
        },
        Command::Stop { profile } => {
            if state.knows_profile(profile.as_str()) {
                Answer::Engine(EngineCommand::Stop { profile })
            } else {
                unknown_profile(profile.as_str(), state)
            }
        },
        Command::Toggle { profile } => {
            if state.knows_profile(profile.as_str()) {
                Answer::Engine(EngineCommand::Toggle { profile })
            } else {
                unknown_profile(profile.as_str(), state)
            }
        },
    }
}

fn unknown_profile(profile: &str, state: &State) -> (result: Answer)
    ensures
        refuses(
            result,
            ErrorCode::UnknownProfile,
            unknown_profile_text(profile@, crate::names::names_of(state.config.profiles@)),
        ),
{
    let mut message = concat3(
        "no profile named ",
        quote(profile).as_str(),
        "; configured profiles are: ",
    );
    message.append(join(&state.config.profiles.keys(), ", ").as_str());
    Answer::Reply(
        Response::Error { code: ErrorCode::UnknownProfile, message },
        Directive::Continue,
    )
}

/// The reply to a command that went to the capture thread. `sent` is what came of sending it.
///
/// The session id is not known yet, since the capture thread assigns it. What matters is that
/// the reply comes back immediately rather than waiting for a device to open. A cancellation
/// is accepted either way: with no capture thread there is nothing to cancel.
pub fn dispatched(cancelling: bool, sent: Result<(), String>) -> (result: Response)
    ensures
        match sent {
            Err(error) if !cancelling => {
                &&& result matches Response::Error { code, message }
                &&& code == ErrorCode::Internal
                &&& message@ == "the capture thread is not running: "@ + error@
            },
            _ => result == (Response::Accepted { session: None }),
        },
{
    match sent {
        Ok(()) => Response::Accepted { session: None },
        Err(error) => {
            if cancelling {
                Response::Accepted { session: None }
            } else {
                Response::Error {
                    code: ErrorCode::Internal,
                    message: concat("the capture thread is not running: ", error.as_str()),
                }
            }
        },
    }
}

/// What reading the configuration again came to.
#[derive(Debug)]
pub struct Reload {
    pub response: Response,
    /// The event to publish.
    pub event: Event,
    /// Whether the capture thread has to be told of a new configuration.
    pub changed: bool,
}

/// The warnings of a configuration in words.
pub open spec fn shown(warnings: Seq<Issue>) -> Seq<Seq<char>> {
    warnings.map_values(|issue: Issue| issue@.shown())
}

/// The warnings of a configuration in words.
pub fn show_warnings(warnings: &Vec<Issue>) -> (result: Vec<String>)
    ensures
        crate::text::texts(result@) == shown(warnings@),
{
    let mut out: Vec<String> = Vec::new();
    let mut i: usize = 0;
    while i < warnings.len()
        invariant
            i <= warnings.len(),
            out@.len() == i,
            forall|j: int| 0 <= j < i ==> (#[trigger] out@[j])@ == warnings@[j]@.shown(),
        decreases warnings.len() - i,
    {
        out.push(warnings[i].to_text());
        i += 1;
    }
    assert(crate::text::texts(out@) =~= shown(warnings@));
    out
}

/// A copy of a list of texts.
fn copy_texts(list: &Vec<String>) -> (result: Vec<String>)
    ensures
        result@ == list@,
{
    let copy = list.clone();
    assert(copy@ =~= list@);
    copy
}

/// Take over a configuration that was read again, or keep the current one when the new one is
/// unusable.
///
/// Refusing a bad reload rather than exiting matters: the daemon holds the microphone, and a
/// typo saved in an editor must not silently end the user's ability to record. The reply
/// carries the warnings of the configuration that is now in effect.
pub fn reload(state: &mut State, read: Result<Loaded, ConfigError>) -> (result: Reload)
    ensures
        match read {
            Ok(loaded) => {
                &&& *final(state) == (State {
                    config: loaded.config,
                    config_warnings: final(state).config_warnings,
                    ..*old(state)
                })
                &&& crate::text::texts(final(state).config_warnings@) == shown(loaded.warnings@)
                &&& result.response matches Response::Reloaded { warnings }
                &&& crate::text::texts(warnings@) == shown(loaded.warnings@)
                &&& result.event@ == (EventView::ConfigReloaded {
                    warnings: loaded.warnings@.len() as usize,
                })
                &&& result.changed
            },
            Err(error) => {
                &&& *final(state) == *old(state)
                &&& result.response matches Response::Error { code, message }
                &&& code == ErrorCode::ConfigInvalid
                &&& message@ == error.shown()
                    + "\n(the previous configuration is still in effect)"@
                &&& result.event@ == (EventView::Error {
                    stage: Stage::Config,
                    message: error.shown(),
                })
                &&& !result.changed
            },
        },
{
    match read {
        Ok(loaded) => {
            let warnings = show_warnings(&loaded.warnings);
            let count: usize = loaded.warnings.len();
            state.config = loaded.config;
            state.config_warnings = copy_texts(&warnings);
            Reload {
                response: Response::Reloaded { warnings },
                event: Event::ConfigReloaded { warnings: count },
                changed: true,
            }
        },
        Err(error) => {
            let text = error.to_text();
            let message = concat(
                text.as_str(),
                "\n(the previous configuration is still in effect)",
            );
            Reload {
                response: Response::Error { code: ErrorCode::ConfigInvalid, message },
                event: Event::Error { stage: Stage::Config, message: text },
                changed: false,
            }
        },
    }
}

/// The event-kind allow-list, if a request was a `subscribe`: from then on the connection
/// carries events rather than replies.
pub fn subscription(request: &Result<Request, String>) -> (result: Option<Vec<String>>)
    ensures
        match request {
            Ok(Request { command: Command::Subscribe { events }, .. }) => result matches Some(list)
                && list@ == events@,
            _ => result is None,
        },
{
    match request {
        Ok(request) => match &request.command {
            Command::Subscribe { events } => Some(copy_texts(events)),
            _ => None,
        },
        Err(_) => None,
    }
}

/// A JSON value.
#[verifier::external_type_specification]
#[verifier::external_body]
pub struct ExJsonValue(serde_json::Value);

/// The name of the JSON value that a line describes, if it does.
pub uninterp spec fn json_value(line: Seq<char>) -> Option<serde_json::Value>;

/// The name of what stands under a key, if a JSON value is an object that has the key.
pub uninterp spec fn json_member(value: serde_json::Value, key: Seq<char>) -> Option<
    serde_json::Value,
>;

/// The name of the text of a JSON value, if it is a string.
pub uninterp spec fn json_text(value: serde_json::Value) -> Option<Seq<char>>;

/// The JSON value that a line describes.
///
/// Trusted: what `serde_json::from_str` reads depends on the line alone. What counts as JSON
/// is left unsaid.
#[verifier::external_body]
fn read_json(line: &str) -> (result: Option<serde_json::Value>)
    ensures
        result == json_value(line@),
{
    serde_json::from_str(line).ok()
}

/// What stands under a key of a JSON object.
///
/// Trusted: `Value::get` finds what stands under the key; the result depends on the value and
/// the key alone.
#[verifier::external_body]
fn read_member<'a>(value: &'a serde_json::Value, key: &str) -> (result: Option<
    &'a serde_json::Value,
>)
    ensures
        match result {
            Some(member) => json_member(*value, key@) == Some(*member),
            None => json_member(*value, key@) is None,
        },
{
    value.get(key)
}

/// The text of a JSON string.
///
/// Trusted: `Value::as_str` gives the text of a string, and of nothing else.
#[verifier::external_body]
fn read_text<'a>(value: &'a serde_json::Value) -> (result: Option<&'a str>)
    ensures
        match result {
            Some(text) => json_text(*value) == Some(text@),
            None => json_text(*value) is None,
        },
{
    value.as_str()
}

/// The text that a JSON object holds under a key, if a line is one and does.
pub open spec fn json_field(line: Seq<char>, key: Seq<char>) -> Option<Seq<char>> {
    match json_value(line) {
        Some(value) => match json_member(value, key) {
            Some(member) => json_text(member),
            None => None,
        },
        None => None,
    }
}

/// The text that a JSON object holds under a key.
fn read_json_field(line: &str, key: &str) -> (result: Option<String>)
    ensures
        match result {
            Some(text) => json_field(line@, key@) == Some(text@),
            None => json_field(line@, key@) is None,
        },
{
    match read_json(line) {
        Some(value) => match read_member(&value, key) {
            Some(member) => match read_text(member) {
                Some(text) => Some(text.to_owned()),
                None => None,
            },
            None => None,
        },
        None => None,
    }
}

/// Whether an event of this kind is wanted by a list of kinds.
pub open spec fn listed(kind: Option<Seq<char>>, wanted: Seq<String>) -> bool {
    kind matches Some(kind) && crate::text::texts(wanted).contains(kind)
}

/// Whether an event of this kind is wanted by a list of kinds. A line with no kind is wanted
/// by none.
pub fn is_listed(kind: Option<&str>, wanted: &Vec<String>) -> (result: bool)
    ensures
        result == listed(
            match kind {
                Some(kind) => Some(kind@),
                None => None,
            },
            wanted@,
        ),
{
    match kind {
        Some(kind) => contains_name(wanted, kind),
        None => false,
    }
}

/// Whether an event line is one of the kinds asked for.
pub fn matches_kind(line: &str, wanted: &Vec<String>) -> (result: bool)
    ensures
        result == listed(json_field(line@, "event"@), wanted@),
{
    match read_json_field(line, "event") {
        Some(kind) => is_listed(Some(kind.as_str()), wanted),
        None => is_listed(None, wanted),
    }
}

/// Whether an event line goes to a subscriber: filtering is opt-in, and a subscriber that
/// names no kinds wants everything.
pub fn wants(line: &str, wanted: &Vec<String>) -> (result: bool)
    ensures
        result == (wanted@.len() == 0 || listed(json_field(line@, "event"@), wanted@)),
{
    wanted.len() == 0 || matches_kind(line, wanted)
}

/// A command about a profile goes to the capture thread as it is, for that profile; every
/// other command is about none.
pub proof fn law_a_command_keeps_its_profile(command: Command)
    ensures
        profile_of(command) is Some <==> command is Start || command is Stop || command is Toggle,
        engine_command(command) is Some <==> profile_of(command) is Some,
        profile_of(command) matches Some(profile) ==> {
            &&& command is Start ==> engine_command(command) == Some(
                EngineCommand::Start { profile },
            )
            &&& command is Stop ==> engine_command(command) == Some(
                EngineCommand::Stop { profile },
            )
            &&& command is Toggle ==> engine_command(command) == Some(
                EngineCommand::Toggle { profile },
            )
        },
{
}

} // verus!
