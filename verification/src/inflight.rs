//! Keeping track of pipelines that are still running.
//!
//! Transcription and callbacks run detached, so the daemon can accept the next recording
//! while the previous one is still uploading. Shutting down waits for them: the recording of
//! what happened is worth as much as the happening.

use vstd::prelude::*;

verus! {

/// A counter of running pipelines.
#[derive(Debug, Clone, Copy, PartialEq, Eq, Default, Structural)]
pub struct InFlight {
    pub running: usize,
}

impl InFlight {
    pub fn new() -> (result: Self)
        ensures
            result.running == 0,
    {
        InFlight { running: 0 }
    }

    /// Register a pipeline.
    pub fn enter(&mut self)
        requires
            old(self).running < usize::MAX,
        ensures
            final(self).running == old(self).running + 1,
    {
        self.running = self.running + 1;
    }

    /// A pipeline has finished, however it finished. Says whether none is left, which is when
    /// whoever waits has to be woken.
    pub fn leave(&mut self) -> (idle: bool)
        requires
            old(self).running > 0,
        ensures
            final(self).running == old(self).running - 1,
            idle == (final(self).running == 0),
    {
        self.running = self.running - 1;
        self.running == 0
    }

    /// How many pipelines are running.
    pub fn count(&self) -> (result: usize)
        ensures
            result == self.running,
    {
        self.running
    }
}

} // verus!
