//! Configuration: the vocabulary the whole tool is described in.

pub mod adapter;
pub mod capture;
pub mod document;
pub mod embedded;
pub mod error;
pub mod keys;
pub mod layer;
pub mod load;
pub mod overlay;
pub mod profile;
pub mod runtime;
pub mod session;
pub mod sink;
pub mod transcriber;
pub mod validate;

use vstd::prelude::*;

pub use adapter::{
    AudioAttach, Headers, HttpMethod, ResponseExtract, ResponseFormat, RetryConfig, SecretRef,
    TextSource,
};
pub use capture::{CaptureConfig, CaptureMode, DeviceSelector};
pub use embedded::{EMBEDDED_DEFAULT, EXAMPLE_CONFIG};
pub use error::{ConfigError, Issue};
pub use layer::Layer;
pub use load::Loaded;
pub use overlay::{
    Hex, OverlayColours, OverlayConfig, OverlayGeometry, OverlayMotion, OverlayPosition,
};
pub use profile::Profile;
pub use runtime::{
    AudioConfig, AudioFormat, CommandPresenter, DaemonConfig, FeedbackConfig, LevelsConfig,
    NotifyPresenter, PresenterConfig, PresenterKind, SocketPresenter, StorageConfig,
};
pub use session::{ContinuationConfig, GapMode, SessionConfig, TriggerMode};
pub use sink::{
    ClipboardSink, CommandSink, FileSink, HttpSink, HttpSinkBody, NotifySink, OnError, SinkConfig,
    SinkKind, SinkMode, TypeSink, TypeTool, Urgency,
};
pub use transcriber::{
    CommandTranscriber, HttpTranscriber, OpenAiTranscriber, TranscriberConfig, TranscriberKind,
};

pub use validate::Report;

use crate::names::Named;

verus! {

/// Settings every profile inherits unless it says otherwise.
#[derive(Debug, Clone, PartialEq, Eq)]
pub struct Defaults {
    pub capture: CaptureConfig,
    pub session: SessionConfig,
    pub continuation: ContinuationConfig,
}

/// A complete, resolved configuration.
#[derive(Debug, Clone, PartialEq, Eq)]
pub struct Config {
    pub daemon: DaemonConfig,
    pub audio: AudioConfig,
    pub levels: LevelsConfig,
    pub storage: StorageConfig,
    pub feedback: FeedbackConfig,
    pub defaults: Defaults,
    pub transcribers: Named<TranscriberConfig>,
    pub sinks: Named<SinkConfig>,
    pub presenters: Named<PresenterConfig>,
    pub profiles: Named<Profile>,
}

} // verus!
