//! Surrounding-hosts discovery: the worker's identity, snapshot directory
//! and cadence.
use std::time::Duration;

use vstd::prelude::*;

use crate::text::{path_join, path_join_exec};
use crate::workers::time::{duration_from_secs, secs};

verus! {

/// The sweep cadence, in seconds (ten minutes).
pub const DEFAULT_TICK_SECS: u64 = 600;

/// The surrounding-hosts worker: this peer's name, the snapshot root and
/// the cadence.
pub struct SurroundingWorker {
    pub host: String,
    pub base_dir: String,
    pub tick: Duration,
}

impl SurroundingWorker {
    /// The production defaults for `host` under `base_dir`.
    pub fn new(host: String, base_dir: String) -> (w: Self)
        ensures
            w.host == host,
            w.base_dir == base_dir,
            w.tick == duration_from_secs(DEFAULT_TICK_SECS),
    {
        SurroundingWorker { host, base_dir, tick: secs(DEFAULT_TICK_SECS) }
    }

    /// Replaces the cadence.
    pub fn with_tick(self, d: Duration) -> (w: Self)
        ensures
            w == (SurroundingWorker { tick: d, ..self }),
    {
        SurroundingWorker { tick: d, ..self }
    }

    /// The worker's name.
    pub fn name(&self) -> (n: &'static str)
        ensures
            n@ == "surrounding_hosts"@,
    {
        "surrounding_hosts"
    }

    /// This peer's snapshot directory: the host name joined to the root.
    pub fn host_dir(&self) -> (p: String)
        ensures
            p@ == path_join(self.base_dir@, self.host@),
    {
        path_join_exec(self.base_dir.as_str(), self.host.as_str())
    }
}

} // verus!
