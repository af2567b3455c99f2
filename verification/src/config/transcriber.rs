//! Speech-to-text provider configuration.
//!
//! Three adapters cover the field. `openai` is a convenience wrapper over the shape most
//! providers copied; `http` is the same machinery with every knob exposed, which is what
//! makes a new provider a configuration change; `command` shells out, which covers every
//! local model and anything else with a command line.

use vstd::prelude::*;

use super::adapter::{
    AudioAttach, Headers, HttpMethod, ResponseExtract, RetryConfig, SecretRef, TextSource,
};
use crate::names::Named;
use crate::single::Threshold;

verus! {

/// How long an attempt to transcribe may take when nothing else is said.
pub const DEFAULT_TRANSCRIBER_TIMEOUT_MS: u64 = 30_000;

/// The model asked for when none is named.
pub const DEFAULT_OPENAI_MODEL: &'static str = "gpt-4o-transcribe";

/// The provider asked when none is named.
pub const DEFAULT_OPENAI_BASE_URL: &'static str = "https://api.openai.com/v1";

/// One named entry under `[transcribers.*]`.
#[derive(Debug, Clone, PartialEq, Eq)]
pub struct TranscriberConfig {
    pub kind: TranscriberKind,
    /// Give up on a single attempt after this long.
    pub timeout_ms: u64,
    pub retry: RetryConfig,
}

#[derive(Debug, Clone, PartialEq, Eq)]
pub enum TranscriberKind {
    /// OpenAI's `/v1/audio/transcriptions`, and anything that reimplements it.
    Openai(OpenAiTranscriber),
    /// Any HTTP API, described field by field.
    Http(HttpTranscriber),
    /// Any executable. The offline path.
    Command(CommandTranscriber),
}

#[derive(Debug, Clone, PartialEq, Eq)]
pub struct OpenAiTranscriber {
    pub model: String,
    pub base_url: String,
    pub api_key: SecretRef,
    /// ISO-639-1 hint. Omitting it lets the model detect the language, which costs a little
    /// accuracy but handles code-switching.
    pub language: Option<String>,
    /// Biases the decoder: useful for names and jargon it would otherwise mangle.
    pub prompt: Option<String>,
    pub temperature: Option<Threshold>,
}

#[derive(Debug, Clone, PartialEq, Eq)]
pub struct HttpTranscriber {
    pub url: String,
    pub method: HttpMethod,
    pub headers: Headers,
    pub audio: AudioAttach,
    /// Extra multipart fields, for a multipart attachment.
    pub form: Named<String>,
    /// Extra top-level JSON keys, for a base64 attachment.
    pub json: Named<String>,
    /// Query string parameters, which is where several providers put their options.
    pub query: Named<String>,
    pub response: ResponseExtract,
}

#[derive(Debug, Clone, PartialEq, Eq)]
pub struct CommandTranscriber {
    /// Argv, not a shell string. Tokens such as `{audio_path}` are substituted per argument,
    /// so a path containing spaces cannot turn into two arguments.
    pub cmd: Vec<String>,
    pub text: TextSource,
    /// Extra environment variables for the child process.
    pub env: Named<String>,
}

} // verus!
