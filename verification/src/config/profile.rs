//! A profile is what a keybind selects: one capture behaviour, at most one transcriber, and
//! any number of callbacks.

use vstd::prelude::*;

use super::capture::CaptureConfig;
use super::session::{ContinuationConfig, SessionConfig, TriggerMode};
use super::sink::SinkMode;

verus! {

/// One named entry under `[profiles.*]`, with every inherited value already resolved.
#[derive(Debug, PartialEq, Eq)]
pub struct Profile {
    pub trigger: TriggerMode,
    /// Name of an entry in `[transcribers.*]`, or nothing for no transcription at all.
    ///
    /// Speech-to-text being optional is a first-class case, not a degraded one: a profile
    /// that hands a `.wav` straight to a script is a perfectly good profile.
    pub transcriber: Option<String>,
    /// Names of entries in `[sinks.*]`. May be empty: the recording is stored either way,
    /// so an "archive only" profile is legitimate.
    pub sinks: Vec<String>,
    pub sink_mode: SinkMode,
    pub capture: CaptureConfig,
    pub session: SessionConfig,
    pub continuation: ContinuationConfig,
}

/// What stands under `transcriber`.
#[derive(Debug)]
pub enum TranscriberRef {
    /// Nothing at all.
    Absent,
    /// A truth value: `false` says that there is no transcription.
    Switch(bool),
    /// The name of an entry in `[transcribers.*]`.
    Name(String),
}

impl TranscriberRef {
    /// Which transcriber is meant, if any. There is no such thing as "some transcriber", so
    /// `true` is refused, with what was expected in its place.
    pub fn resolve(self) -> (result: Result<Option<String>, &'static str>)
        ensures
            match self {
                TranscriberRef::Absent => result == Ok::<Option<String>, &'static str>(None),
                TranscriberRef::Switch(on) => if on {
                    result matches Err(expected) && expected@
                        == "a transcriber name, or `false` to disable transcription"@
                } else {
                    result == Ok::<Option<String>, &'static str>(None)
                },
                TranscriberRef::Name(name) => result == Ok::<Option<String>, &'static str>(
                    Some(name),
                ),
            },
    {
        match self {
            TranscriberRef::Absent => Ok(None),
            TranscriberRef::Switch(on) => {
                if on {
                    Err("a transcriber name, or `false` to disable transcription")
                } else {
                    Ok(None)
                }
            },
            TranscriberRef::Name(name) => Ok(Some(name)),
        }
    }
}

/// What a profile says, with its list of sinks as a sequence.
pub struct ProfileView {
    pub trigger: TriggerMode,
    pub transcriber: Option<String>,
    pub sinks: Seq<String>,
    pub sink_mode: SinkMode,
    pub capture: CaptureConfig,
    pub session: SessionConfig,
    pub continuation: ContinuationConfig,
}

impl View for Profile {
    type V = ProfileView;

    open spec fn view(&self) -> ProfileView {
        ProfileView {
            trigger: self.trigger,
            transcriber: self.transcriber,
            sinks: self.sinks@,
            sink_mode: self.sink_mode,
            capture: self.capture,
            session: self.session,
            continuation: self.continuation,
        }
    }
}

impl Clone for Profile {
    fn clone(&self) -> (result: Self)
        ensures
            result@ == self@,
    {
        let sinks = self.sinks.clone();
        assert(sinks@ =~= self.sinks@);
        Profile {
            trigger: self.trigger,
            transcriber: self.transcriber.clone(),
            sinks,
            sink_mode: self.sink_mode,
            capture: self.capture.clone(),
            session: self.session,
            continuation: self.continuation,
        }
    }
}

} // verus!
