//! Worker supervision: when a finished worker is started again.
use vstd::prelude::*;

verus! {

/// When the supervisor restarts a worker that returned.
#[derive(Debug, Clone, Copy, PartialEq, Eq, Structural)]
pub enum RestartPolicy {
    /// Never: the outcome is recorded and the worker stays down.
    Never,
    /// Only after it returned an error.
    OnFailure,
    /// After any return.
    Always,
}

impl RestartPolicy {
    /// Whether a worker that returned (`failed` when with an error) is
    /// started again.
    pub fn restarts(self, failed: bool) -> (b: bool)
        ensures
            b == match self {
                RestartPolicy::Never => false,
                RestartPolicy::OnFailure => failed,
                RestartPolicy::Always => true,
            },
    {
        match self {
            RestartPolicy::Never => false,
            RestartPolicy::OnFailure => failed,
            RestartPolicy::Always => true,
        }
    }
}


/// The pause before a restart, in milliseconds.
pub const RESTART_BACKOFF_MS: u64 = 250;

/// What the supervisor does after a worker's `run` returned.
#[derive(Debug, Clone, Copy, PartialEq, Eq)]
pub enum AfterRun {
    /// Record the outcome; the worker stays down.
    Stop,
    /// Pause `RESTART_BACKOFF_MS`, then run the worker again.
    Restart,
}

/// The supervisor's decision after a run: restart when the policy asks for
/// it and no shutdown was requested, else stop.
pub fn after_run(policy: RestartPolicy, failed: bool, shutdown_requested: bool) -> (r: AfterRun)
    ensures
        r == (if policy.restarts_spec(failed) && !shutdown_requested { AfterRun::Restart } else { AfterRun::Stop }),
{
    if policy.restarts(failed) && !shutdown_requested {
        AfterRun::Restart
    } else {
        AfterRun::Stop
    }
}

impl RestartPolicy {
    /// Whether a worker that returned is started again (see `restarts`).
    pub open spec fn restarts_spec(self, failed: bool) -> bool {
        match self {
            RestartPolicy::Never => false,
            RestartPolicy::OnFailure => failed,
            RestartPolicy::Always => true,
        }
    }
}

} // verus!
