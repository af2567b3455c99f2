//! The request and response types, shared by both sides so they cannot drift apart.
//!
//! One JSON object per line, in both directions. Line-delimited rather than length-prefixed
//! because the whole protocol should be usable from a shell.

use vstd::prelude::*;

use crate::session::SessionId;

verus! {

/// Protocol version.
///
/// Separate from the event schema version: this one changes when the command surface
/// changes. Carried on every request so that a client left over from a previous install gets
/// told plainly rather than failing in some obscure way.
pub const PROTOCOL_VERSION: u32 = 1;

/// A message from a client to the daemon.
#[derive(Debug, Clone, PartialEq, Eq)]
pub struct Request {
    pub v: u32,
    pub command: Command,
}

impl Request {
    pub fn new(command: Command) -> (result: Self)
        ensures
            result == (Request { v: PROTOCOL_VERSION, command }),
    {
        Request { v: PROTOCOL_VERSION, command }
    }
}

/// What a client asks for.
#[derive(Debug, Clone, PartialEq, Eq)]
pub enum Command {
    /// Liveness check. Also how the client tells a stale socket from a running daemon.
    Ping,
    /// Begin recording, or extend the session already in its cooldown window.
    Start { profile: String },
    /// Stop recording and open the cooldown window.
    ///
    /// Idempotent: stopping something already stopped is success, not an error.
    Stop { profile: String },
    /// Flip between recording and not, for `trigger = "toggle"` profiles.
    Toggle { profile: String },
    /// Discard whatever is in flight. Nothing downstream runs.
    Cancel,
    /// A snapshot of what the daemon is doing.
    Status,
    /// Turn this connection into a one-way event stream.
    ///
    /// `events` is an allow-list of event kinds; empty means everything.
    Subscribe { events: Vec<String> },
    /// Re-read the configuration from disk.
    Reload,
    /// Shut the daemon down cleanly, finishing any session in flight.
    Shutdown,
}

/// A message from the daemon to a client.
#[derive(Debug, Clone, PartialEq, Eq)]
pub enum Response {
    Pong { version: String, protocol: u32 },
    /// The command was acted on. `session` is present when one was started or extended.
    Accepted { session: Option<SessionId> },
    Status(Box<DaemonStatus>),
    Reloaded { warnings: Vec<String> },
    /// The stream is open; every following line is an event envelope.
    Subscribed,
    Error { code: ErrorCode, message: String },
}

/// Why a command failed.
///
/// A closed set so that a caller can branch on it: a script wrapping the client needs to
/// tell "you typed a profile that does not exist" from "the microphone is gone".
#[derive(Debug, Clone, Copy, PartialEq, Eq, Structural)]
pub enum ErrorCode {
    /// The request was not valid JSON, or not a known command.
    BadRequest,
    /// The client speaks a different protocol version than the daemon.
    VersionMismatch,
    /// No `[profiles.*]` entry by that name.
    UnknownProfile,
    /// The command does not apply in the daemon's current state.
    WrongState,
    /// The audio device could not be opened.
    DeviceUnavailable,
    /// Configuration on disk is not valid, so the reload was refused and the previous
    /// configuration is still in effect.
    ConfigInvalid,
    /// Something unexpected. The message carries the detail.
    Internal,
    /// Recognised, but this build does not implement it yet.
    NotImplemented,
}

impl ErrorCode {
    /// The exit code that stands for this error.
    pub open spec fn exit_code_spec(self) -> i32 {
        match self {
            ErrorCode::BadRequest | ErrorCode::VersionMismatch => 2,
            ErrorCode::UnknownProfile => 3,
            ErrorCode::WrongState => 4,
            ErrorCode::DeviceUnavailable => 5,
            ErrorCode::ConfigInvalid => 6,
            ErrorCode::NotImplemented => 7,
            ErrorCode::Internal => 1,
        }
    }

    /// Process exit code for a client that hit this error.
    ///
    /// Distinct codes so a keybind wrapper script can react without parsing text.
    pub fn exit_code(self) -> (result: i32)
        ensures
            result == self.exit_code_spec(),
    {
        match self {
            ErrorCode::BadRequest | ErrorCode::VersionMismatch => 2,
            ErrorCode::UnknownProfile => 3,
            ErrorCode::WrongState => 4,
            ErrorCode::DeviceUnavailable => 5,
            ErrorCode::ConfigInvalid => 6,
            ErrorCode::NotImplemented => 7,
            ErrorCode::Internal => 1,
        }
    }
}

/// No failure looks like success, and only the two ways in which a request can be
/// unacceptable share a code.
pub proof fn law_exit_codes_tell_failures_apart(a: ErrorCode, b: ErrorCode)
    ensures
        a.exit_code_spec() != 0,
        a.exit_code_spec() == b.exit_code_spec() ==> a == b || (a.exit_code_spec() == 2),
        a.exit_code_spec() == 2 <==> a == ErrorCode::BadRequest || a == ErrorCode::VersionMismatch,
{
}

/// What the daemon is doing right now.
#[derive(Debug, Clone, Copy, PartialEq, Eq, Structural)]
pub enum ActivityState {
    /// Nothing in flight.
    Idle,
    /// Capturing.
    Recording { segment: u32, elapsed_ms: u64 },
    /// Stopped, but inside the continuation window: pressing again resumes this session.
    Cooling { remaining_ms: u32 },
    /// Transcribing or running callbacks.
    Processing,
}

/// The open capture device, if there is one.
#[derive(Debug, PartialEq, Eq)]
pub struct DeviceStatus {
    pub name: String,
    pub sample_rate: u32,
    pub channels: u16,
    /// How much lookback the pre-roll buffer currently holds, which right after the device
    /// opens is less than the configured amount.
    pub pre_roll_available_ms: u32,
}

impl Clone for DeviceStatus {
    fn clone(&self) -> (result: Self)
        ensures
            result == *self,
    {
        DeviceStatus {
            name: self.name.clone(),
            sample_rate: self.sample_rate,
            channels: self.channels,
            pre_roll_available_ms: self.pre_roll_available_ms,
        }
    }
}

/// A snapshot of the daemon, for `voice-commander status`.
#[derive(Debug, Clone, PartialEq, Eq)]
pub struct DaemonStatus {
    pub version: String,
    pub protocol: u32,
    pub uptime_secs: u64,
    pub activity: ActivityState,
    /// The session in flight, if any.
    pub session: Option<SessionId>,
    pub profile: Option<String>,
    pub device: Option<DeviceStatus>,
    /// Profile names from the loaded configuration, so `status` doubles as "what can I
    /// bind?".
    pub profiles: Vec<String>,
    /// Warnings raised by the configuration currently in effect. Non-zero is worth showing.
    pub config_warnings: usize,
    pub socket: String,
}

/// A caller tells what went wrong by the code alone: each kind of refusal has its own, but
/// that a request that makes no sense and one of another version share theirs.
pub proof fn law_each_refusal_has_its_code(code: ErrorCode)
    ensures
        code.exit_code_spec() == 1 <==> code == ErrorCode::Internal,
        code.exit_code_spec() == 2 <==> code == ErrorCode::BadRequest || code
            == ErrorCode::VersionMismatch,
        code.exit_code_spec() == 3 <==> code == ErrorCode::UnknownProfile,
        code.exit_code_spec() == 4 <==> code == ErrorCode::WrongState,
        code.exit_code_spec() == 5 <==> code == ErrorCode::DeviceUnavailable,
        code.exit_code_spec() == 6 <==> code == ErrorCode::ConfigInvalid,
        code.exit_code_spec() == 7 <==> code == ErrorCode::NotImplemented,
{
}

} // verus!
