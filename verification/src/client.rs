//! The client side of the socket.
//!
//! This runs on every keypress, between the user pressing a key and audio being captured, so
//! the exchange is as short as it can be: one line out, one line back.

use vstd::prelude::*;

use crate::paths::socket_path;
use crate::protocol::{ErrorCode, Response, PROTOCOL_VERSION};
use crate::text::{concat, concat3, trim_end};

verus! {

/// Why talking to the daemon failed.
#[derive(Debug, Clone, PartialEq, Eq)]
pub enum ClientError {
    /// Nothing is listening. Almost always "the daemon is not running".
    NotRunning { path: String },
    Io { path: String, source: String },
    /// The daemon closed the connection without answering.
    NoReply,
    Malformed(String),
    /// The daemon answered, and the answer was a refusal.
    Refused { code: ErrorCode, message: String },
}

/// What a failure to talk to the daemon is called.
pub open spec fn client_error_text(error: ClientError) -> Seq<char> {
    match error {
        ClientError::NotRunning { path } => "no daemon is listening on "@ + path@,
        ClientError::Io { path, source } => "talking to the daemon on "@ + path@ + ": "@ + source@,
        ClientError::NoReply => "the daemon closed the connection without replying"@,
        ClientError::Malformed(source) => "could not understand the daemon's reply: "@ + source@,
        ClientError::Refused { message, .. } => message@,
    }
}

impl ClientError {
    /// The exit code that stands for this failure.
    pub open spec fn exit_code_spec(self) -> i32 {
        match self {
            ClientError::Refused { code, .. } => code.exit_code_spec(),
            ClientError::NotRunning { .. } => 69,
            _ => 1,
        }
    }

    /// Process exit code, so a wrapper script can branch without parsing text.
    pub fn exit_code(&self) -> (result: i32)
        ensures
            result == self.exit_code_spec(),
    {
        match self {
            ClientError::Refused { code, .. } => code.exit_code(),
            // EX_UNAVAILABLE
            ClientError::NotRunning { .. } => 69,
            _ => 1,
        }
    }

    /// The failure in words.
    pub fn to_text(&self) -> (result: String)
        ensures
            result@ == client_error_text(*self),
    {
        match self {
            ClientError::NotRunning { path } => concat(
                "no daemon is listening on ",
                path.as_str(),
            ),
            ClientError::Io { path, source } => {
                let mut out = concat3("talking to the daemon on ", path.as_str(), ": ");
                out.append(source.as_str());
                out
            },
            ClientError::NoReply => "the daemon closed the connection without replying".to_owned(),
            ClientError::Malformed(source) => concat(
                "could not understand the daemon's reply: ",
                source.as_str(),
            ),
            ClientError::Refused { message, .. } => message.clone(),
        }
    }
}

/// Failing never looks like success, and "the daemon is not running" can be told from every
/// refusal.
pub proof fn law_exit_codes_are_failures(error: ClientError)
    ensures
        error.exit_code_spec() != 0,
        error.exit_code_spec() == 69 <==> error is NotRunning,
{
}

/// Why a connection could not be made.
#[derive(Debug, Clone, PartialEq, Eq)]
pub enum ConnectFailure {
    /// There is no socket.
    NotFound,
    /// There is one, and nobody listens on it.
    Refused,
    Other(String),
}

/// What a connection that could not be made means: with no socket, or nobody listening on
/// it, the daemon is not running.
pub fn connect(path: &str, failure: ConnectFailure) -> (result: ClientError)
    ensures
        match failure {
            ConnectFailure::NotFound | ConnectFailure::Refused => result matches ClientError::NotRunning {
                path: at,
            } && at@ == path@,
            ConnectFailure::Other(reason) => result matches ClientError::Io { path: at, source }
                && at@ == path@ && source == reason,
        },
{
    match failure {
        ConnectFailure::NotFound | ConnectFailure::Refused => ClientError::NotRunning {
            path: path.to_owned(),
        },
        ConnectFailure::Other(source) => ClientError::Io { path: path.to_owned(), source },
    }
}

/// What came back for a command: a parsed reply, a line that could not be parsed, or nothing.
#[derive(Debug)]
pub enum Reply {
    Parsed(Response),
    Unparsed(String),
    Closed,
}

/// What a reply means to whoever sent a command.
pub fn send(reply: Reply) -> (result: Result<Response, ClientError>)
    ensures
        match reply {
            Reply::Parsed(Response::Error { code, message }) => result == Err::<
                Response,
                ClientError,
            >(ClientError::Refused { code, message }),
            Reply::Parsed(response) => result == Ok::<Response, ClientError>(response),
            Reply::Unparsed(reason) => result == Err::<Response, ClientError>(
                ClientError::Malformed(reason),
            ),
            Reply::Closed => result == Err::<Response, ClientError>(ClientError::NoReply),
        },
{
    match reply {
        Reply::Parsed(response) => match response {
            Response::Error { code, message } => Err(ClientError::Refused { code, message }),
            response => Ok(response),
        },
        Reply::Unparsed(reason) => Err(ClientError::Malformed(reason)),
        Reply::Closed => Err(ClientError::NoReply),
    }
}

/// What a reply means to whoever asked for the event stream. `shown` is the reply the way
/// diagnostics show it, for when it is none that the question can have.
pub fn subscribe(reply: Reply, shown: &str) -> (result: Result<(), ClientError>)
    ensures
        match reply {
            Reply::Parsed(Response::Subscribed) => result is Ok,
            Reply::Parsed(Response::Error { code, message }) => result == Err::<(), ClientError>(
                ClientError::Refused { code, message },
            ),
            Reply::Parsed(_) => {
                &&& result matches Err(ClientError::Refused { code, message })
                &&& code == ErrorCode::BadRequest
                &&& message@ == "expected a subscription, got "@ + shown@
            },
            Reply::Unparsed(reason) => result == Err::<(), ClientError>(
                ClientError::Malformed(reason),
            ),
            Reply::Closed => result == Err::<(), ClientError>(ClientError::NoReply),
        },
{
    match reply {
        Reply::Parsed(response) => match response {
            Response::Subscribed => Ok(()),
            Response::Error { code, message } => Err(ClientError::Refused { code, message }),
            _ => Err(
                ClientError::Refused {
                    code: ErrorCode::BadRequest,
                    message: concat("expected a subscription, got ", shown),
                },
            ),
        },
        Reply::Unparsed(reason) => Err(ClientError::Malformed(reason)),
        Reply::Closed => Err(ClientError::NoReply),
    }
}

/// Whether a daemon is listening, given how it answered a ping.
///
/// A socket file existing proves nothing: one left behind by a crash looks identical to a
/// live one until something tries to connect.
pub fn is_running(answer: &Result<Response, ClientError>) -> (result: bool)
    ensures
        result == (answer matches Ok(response) && response is Pong),
{
    match answer {
        Ok(Response::Pong { .. }) => true,
        _ => false,
    }
}

/// The text of an event line as it came off the socket; none when the stream is over.
///
/// The line is handed on as it is, so that a consumer on a newer schema version than this
/// client can still see everything.
pub fn event_line(line: &str) -> (result: Option<String>)
    ensures
        match result {
            Some(text) => line@.len() > 0 && text@ == crate::text::trimmed_end(line@),
            None => line@.len() == 0,
        },
{
    if line.is_empty() {
        None
    } else {
        Some(trim_end(line))
    }
}

/// Where to reach the daemon.
///
/// In the order a user would expect to be able to override: an explicit argument, then
/// `$VOICE_COMMANDER_SOCKET`, then the default location.
pub fn resolve_socket_path(
    explicit: Option<String>,
    from_environment: Option<String>,
    runtime_dir: Option<String>,
    uid: Option<String>,
) -> (result: String)
    ensures
        result@ == (match explicit {
            Some(path) => path@,
            None => match from_environment {
                Some(path) => path@,
                None => crate::paths::socket_spec(
                    crate::event::optional(runtime_dir),
                    crate::event::optional(uid),
                ),
            },
        }),
{
    match explicit {
        Some(path) => path,
        None => match from_environment {
            Some(path) => path,
            None => socket_path(runtime_dir, uid),
        },
    }
}

/// The protocol version this client speaks.
pub fn protocol_version() -> (result: u32)
    ensures
        result == PROTOCOL_VERSION,
{
    PROTOCOL_VERSION
}

/// A daemon that is not running has the code of an unavailable service, a refusal has the code
/// of its reason, and every other failure the general one.
pub proof fn law_an_absent_daemon_is_an_unavailable_service(error: ClientError)
    ensures
        error is NotRunning <==> error.exit_code_spec() == 69,
        error matches ClientError::Refused { code, .. } ==> error.exit_code_spec()
            == code.exit_code_spec(),
        !(error is NotRunning) && !(error is Refused) ==> error.exit_code_spec() == 1,
{
}

} // verus!
