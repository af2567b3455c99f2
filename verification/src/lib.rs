//! voice-commander: push-to-talk capture, continuation, and delivery to callbacks.

pub mod audio;
pub mod calendar;
pub mod client;
pub mod clock;
pub mod command;
pub mod config;
pub mod engine;
pub mod event;
pub mod fanout;
pub mod feedback;
pub mod inflight;
pub mod listener;
pub mod lists;
pub mod names;
pub mod paths;
pub mod pipeline;
pub mod presenters;
pub mod protocol;
pub mod recorder;
pub mod retention;
pub mod retry;
pub mod session;
pub mod single;
pub mod state;
pub mod stats;
pub mod storage;
pub mod text;
pub mod tokens;

use vstd::prelude::*;

verus! {

/// The version of the event and session schema.
///
/// Adding an event or an optional field is backwards compatible; anything else means raising
/// this.
pub const EVENT_SCHEMA_VERSION: u32 = 1;

} // verus!
