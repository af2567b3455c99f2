//! Callback configuration: where a finished recording gets delivered.

use vstd::prelude::*;

use super::adapter::{Headers, HttpMethod, RetryConfig};
use crate::names::Named;

verus! {

/// How long a sink may take when nothing else is said.
pub const DEFAULT_SINK_TIMEOUT_MS: u64 = 60_000;

/// The summary of a notification when none is set.
pub const DEFAULT_NOTIFY_SUMMARY: &'static str = "voice-commander";

/// The body of a notification when none is set.
pub const DEFAULT_NOTIFY_BODY: &'static str = "{text}";

/// How long a notification stays when nothing else is said.
pub const DEFAULT_NOTIFY_EXPIRE_MS: u32 = 5_000;

/// What is written to a file when no template is set.
pub const DEFAULT_FILE_TEMPLATE: &'static str = "{started_at} {text}\n";

/// What a failing sink does to the rest of the fan-out.
#[derive(Debug, Clone, Copy, PartialEq, Eq, Default, Structural)]
pub enum OnError {
    /// Record the failure and carry on with the other sinks. The default, because one
    /// unreachable webhook should not stop the transcript reaching the clipboard.
    #[default]
    Ignore,
    /// Mark the whole session failed. For sinks whose success is the point of the profile.
    FailSession,
}

/// Whether a profile's sinks run together or in order.
#[derive(Debug, Clone, Copy, PartialEq, Eq, Default, Structural)]
pub enum SinkMode {
    /// All at once. Total latency is the slowest sink rather than their sum.
    #[default]
    Parallel,
    /// One after another, in the order listed. For when a later sink depends on what an
    /// earlier one did.
    Sequential,
}

/// One named entry under `[sinks.*]`.
#[derive(Debug, Clone, PartialEq, Eq)]
pub struct SinkConfig {
    pub kind: SinkKind,
    /// Skip this sink when the session produced no transcript. Defaults to whatever the
    /// sink kind needs: a `clipboard` sink is pointless without text, a `command` sink
    /// handed a `.wav` path is not.
    pub requires_text: Option<bool>,
    pub on_error: OnError,
    pub timeout_ms: u64,
    pub retry: RetryConfig,
}

impl SinkConfig {
    /// Whether this sink should be skipped when there is no transcript.
    pub open spec fn needs_text_spec(self) -> bool {
        match self.requires_text {
            Some(required) => required,
            None => self.kind.needs_text_by_default_spec(),
        }
    }

    /// Whether this sink should be skipped when there is no transcript.
    pub fn needs_text(&self) -> (result: bool)
        ensures
            result == self.needs_text_spec(),
    {
        match self.requires_text {
            Some(required) => required,
            None => self.kind.needs_text_by_default(),
        }
    }
}

#[derive(Debug, Clone, PartialEq, Eq)]
pub enum SinkKind {
    /// Run a program. The general escape hatch, and the reason this project exists.
    Command(CommandSink),
    /// POST somewhere.
    Http(HttpSink),
    /// Copy the transcript to the Wayland clipboard.
    Clipboard(ClipboardSink),
    /// Type the transcript into whatever window has focus.
    Type(TypeSink),
    /// Raise a desktop notification.
    Notify(NotifySink),
    /// Append to a file.
    File(FileSink),
}

impl SinkKind {
    /// A clipboard, typing or file sink has nothing to do without a transcript; the others
    /// are perfectly useful with only an audio file.
    pub open spec fn needs_text_by_default_spec(self) -> bool {
        self is Clipboard || self is Type || self is File
    }

    fn needs_text_by_default(&self) -> (result: bool)
        ensures
            result == self.needs_text_by_default_spec(),
    {
        match self {
            SinkKind::Clipboard(_) | SinkKind::Type(_) | SinkKind::File(_) => true,
            SinkKind::Command(_) | SinkKind::Http(_) | SinkKind::Notify(_) => false,
        }
    }

    /// The `type` value that stands for this variant, for diagnostics.
    pub open spec fn kind_name_spec(self) -> Seq<char> {
        match self {
            SinkKind::Command(_) => "command"@,
            SinkKind::Http(_) => "http"@,
            SinkKind::Clipboard(_) => "clipboard"@,
            SinkKind::Type(_) => "type"@,
            SinkKind::Notify(_) => "notify"@,
            SinkKind::File(_) => "file"@,
        }
    }

    /// The `type` value that stands for this variant, for diagnostics.
    pub fn kind_name(&self) -> (result: &'static str)
        ensures
            result@ == self.kind_name_spec(),
    {
        match self {
            SinkKind::Command(_) => "command",
            SinkKind::Http(_) => "http",
            SinkKind::Clipboard(_) => "clipboard",
            SinkKind::Type(_) => "type",
            SinkKind::Notify(_) => "notify",
            SinkKind::File(_) => "file",
        }
    }
}

#[derive(Debug, Clone, PartialEq, Eq)]
pub struct CommandSink {
    /// Argv with `{token}` substitution applied per argument.
    pub cmd: Vec<String>,
    pub env: Named<String>,
    /// Write the session metadata as JSON to the child's standard input.
    pub stdin_json: bool,
    /// Working directory for the child. Defaults to the session directory.
    pub cwd: Option<String>,
}

#[derive(Debug, Clone, PartialEq, Eq)]
pub struct HttpSink {
    pub url: String,
    pub method: HttpMethod,
    pub headers: Headers,
    pub body: HttpSinkBody,
}

/// What an HTTP sink sends.
#[derive(Debug, Clone, PartialEq, Eq, Default)]
pub enum HttpSinkBody {
    /// The full session metadata as JSON.
    #[default]
    SessionJson,
    /// A JSON body built from a template string with `{token}` substitution.
    Template { template: String },
    /// `multipart/form-data` carrying the audio file, plus any extra fields.
    Multipart { audio_field: String, form: Named<String> },
}

#[derive(Debug, Clone, Copy, PartialEq, Eq, Default, Structural)]
pub struct ClipboardSink {
    /// Also put the text on the primary selection (middle-click paste).
    pub primary: bool,
}

/// Which tool injects synthetic keystrokes.
#[derive(Debug, Clone, Copy, PartialEq, Eq, Default, Structural)]
pub enum TypeTool {
    /// Prefer `wtype`, fall back to `ydotool`.
    #[default]
    Auto,
    Wtype,
    Ydotool,
}

#[derive(Debug, Clone, Copy, PartialEq, Eq, Default, Structural)]
pub struct TypeSink {
    pub tool: TypeTool,
    /// Delay between keystrokes. Some applications drop input typed faster than a human can.
    pub key_delay_ms: u32,
}

#[derive(Debug, Clone, Copy, PartialEq, Eq, Default, Structural)]
pub enum Urgency {
    Low,
    #[default]
    Normal,
    Critical,
}

#[derive(Debug, Clone, PartialEq, Eq)]
pub struct NotifySink {
    pub summary: String,
    pub body: String,
    pub urgency: Urgency,
    pub expire_ms: u32,
}

#[derive(Debug, Clone, PartialEq, Eq)]
pub struct FileSink {
    /// Destination path. Supports `{token}` substitution, so a per-day log is just
    /// `~/notes/{date}.md`.
    pub path: String,
    /// What to write, with `{token}` substitution.
    pub template: String,
    /// Append rather than truncate.
    pub append: bool,
}

/// A callback needs text when it is told to, and when nothing is said, exactly when all it
/// does is put text somewhere: on the clipboard, into the focused window, or into a file.
pub proof fn law_what_a_callback_is_told_outranks_its_kind(sink: SinkConfig)
    ensures
        sink.requires_text == Some(true) ==> sink.needs_text_spec(),
        sink.requires_text == Some(false) ==> !sink.needs_text_spec(),
        sink.requires_text is None ==> sink.needs_text_spec() == (match sink.kind {
            SinkKind::Clipboard(_) => true,
            SinkKind::Type(_) => true,
            SinkKind::File(_) => true,
            SinkKind::Command(_) => false,
            SinkKind::Http(_) => false,
            SinkKind::Notify(_) => false,
        }),
{
}

} // verus!
