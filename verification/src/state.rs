//! What the daemon knows.

use vstd::prelude::*;

use crate::clock::Moment;
use crate::config::Config;
use crate::engine::Status;
use crate::protocol::{DaemonStatus, PROTOCOL_VERSION};

verus! {

/// Everything mutable, behind one lock.
///
/// One lock rather than several because the interesting invariants span fields. The critical
/// sections are microseconds of bookkeeping; the audio thread never touches this.
#[derive(Debug)]
pub struct State {
    pub config: Config,
    /// Warnings from the configuration currently in effect, kept so `status` can surface
    /// them long after the log line scrolled away.
    pub config_warnings: Vec<String>,
    pub socket: String,
    /// Where the configuration is read from, so a reload does not have to be routed back out
    /// to whoever constructed the daemon.
    pub config_dir: String,
    pub started_at: Moment,
}

impl State {
    pub fn new(
        config: Config,
        config_warnings: Vec<String>,
        socket: String,
        config_dir: String,
        started_at: Moment,
    ) -> (result: Self)
        ensures
            result == (State { config, config_warnings, socket, config_dir, started_at }),
    {
        State { config, config_warnings, socket, config_dir, started_at }
    }

    /// A snapshot of the daemon, given what the engine is doing.
    pub fn status(&self, version: &str, engine: Status, now: Moment) -> (result: DaemonStatus)
        ensures
            result.version@ == version@,
            result.protocol == PROTOCOL_VERSION,
            result.uptime_secs == now.millis_since_spec(self.started_at) / 1000,
            result.activity == engine.activity,
            result.session == engine.session,
            result.profile == engine.profile,
            result.device == engine.device,
            crate::text::texts(result.profiles@) == crate::names::names_of(self.config.profiles@),
            result.config_warnings == self.config_warnings@.len(),
            result.socket == self.socket,
    {
        DaemonStatus {
            version: version.to_owned(),
            protocol: PROTOCOL_VERSION,
            uptime_secs: now.millis_since(self.started_at) / 1000,
            activity: engine.activity,
            session: engine.session,
            profile: engine.profile,
            device: engine.device,
            profiles: self.config.profiles.keys(),
            config_warnings: self.config_warnings.len(),
            socket: self.socket.clone(),
        }
    }

    pub fn knows_profile(&self, name: &str) -> (result: bool)
        ensures
            result == crate::names::has_name(self.config.profiles@, name@),
    {
        self.config.profiles.contains_key(name)
    }
}

} // verus!
