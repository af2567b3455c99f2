//! Pieces shared by the configuration of every outbound adapter: the HTTP-shaped
//! transcribers and sinks, and the ones that shell out to a command.

use vstd::prelude::*;

use crate::names::Named;

verus! {

/// Retry policy for an operation that talks to something outside this process.
#[derive(Debug, Clone, Copy, PartialEq, Eq, Structural)]
pub struct RetryConfig {
    /// Total attempts, including the first. `1` disables retrying.
    pub attempts: u32,
    /// Delay before the second attempt; doubled for each attempt after that.
    pub backoff_ms: u64,
}

impl Default for RetryConfig {
    fn default() -> (result: Self)
        ensures
            result == (RetryConfig { attempts: 1, backoff_ms: 500 }),
    {
        RetryConfig { attempts: 1, backoff_ms: 500 }
    }
}

/// The field that audio is attached under when none is named.
pub const DEFAULT_AUDIO_FIELD: &'static str = "file";

/// Where in a response the transcript is looked for when nothing else is said.
pub const DEFAULT_TEXT_POINTER: &'static str = "/text";

/// How the audio is attached to an outbound HTTP request.
///
/// Providers disagree about this more than about anything else, which is exactly why it is
/// configuration.
#[derive(Debug, Clone, PartialEq, Eq)]
pub enum AudioAttach {
    /// `multipart/form-data` with the audio under `field`.
    Multipart { field: String },
    /// The raw audio bytes as the entire request body.
    RawBody,
    /// A JSON body with the audio base64-encoded into `field`.
    Base64Json { field: String },
}

/// How the response body maps to a transcript.
#[derive(Debug, Clone, Copy, PartialEq, Eq, Structural)]
pub enum ResponseFormat {
    /// Parse as JSON and follow `text_pointer` to the transcript.
    Json,
    /// The whole response body is the transcript.
    Text,
}

/// Where in the response the transcript lives.
#[derive(Debug, Clone, PartialEq, Eq)]
pub struct ResponseExtract {
    pub format: ResponseFormat,
    /// An RFC 6901 JSON pointer, e.g. `/text`. Ignored for [`ResponseFormat::Text`].
    pub text_pointer: String,
}

impl Default for ResponseExtract {
    fn default() -> (result: Self)
        ensures
            result.format == ResponseFormat::Json,
            result.text_pointer@ == DEFAULT_TEXT_POINTER@,
    {
        ResponseExtract {
            format: ResponseFormat::Json,
            text_pointer: DEFAULT_TEXT_POINTER.to_owned(),
        }
    }
}

/// Where a secret comes from.
///
/// Note the absence of a variant holding the secret itself. Configuration files get copied
/// into dotfile repositories and pasted into issue reports; an API key does not belong in
/// one.
#[derive(Debug, Clone, PartialEq, Eq)]
pub struct SecretRef {
    /// Read the secret from this environment variable.
    pub env: Option<String>,
    /// Run this command and use its trimmed standard output.
    pub command: Option<Vec<String>>,
}

/// Where the text produced by a `command` transcriber is read from.
#[derive(Debug, Clone, PartialEq, Eq)]
pub enum TextSource {
    /// The command printed the transcript to standard output.
    Stdout,
    /// The command wrote the transcript to this path.
    File { path: String },
}

/// An HTTP method, restricted to the ones that carry a body.
#[derive(Debug, Clone, Copy, PartialEq, Eq, Default, Structural)]
pub enum HttpMethod {
    #[default]
    Post,
    Put,
    Patch,
}

impl HttpMethod {
    /// The method as it stands in a request line.
    pub fn as_str(self) -> (result: &'static str)
        ensures
            result@ == (match self {
                HttpMethod::Post => "POST"@,
                HttpMethod::Put => "PUT"@,
                HttpMethod::Patch => "PATCH"@,
            }),
    {
        match self {
            HttpMethod::Post => "POST",
            HttpMethod::Put => "PUT",
            HttpMethod::Patch => "PATCH",
        }
    }
}

/// Header name/value pairs. Values may contain `${VAR}` references, expanded from the
/// environment when the request is built rather than when the configuration is loaded.
pub type Headers = Named<String>;

} // verus!
