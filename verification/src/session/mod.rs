//! Sessions: how one is identified, and what is written down about it.

pub mod id;
pub mod record;

pub use id::SessionId;
pub use record::{
    AudioSummary, CaptureSummary, InputWarningKind, LevelSummary, Outcome, Segment, SessionRecord,
    SinkOutcome, SinkRecord, SkipReason, StopReason, TranscriptRecord,
};
