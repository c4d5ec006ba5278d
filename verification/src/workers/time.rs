//! Durations for the workers' cadences.
use std::time::Duration;

use vstd::prelude::*;

verus! {

/// `Duration::from_secs(secs)`.
pub uninterp spec fn duration_from_secs(secs: u64) -> Duration;

/// `std::time::Duration::from_secs`. Claimed: the result is the named
/// value `duration_from_secs(n)`, the same for the same `n`.
#[verifier::external_body]
pub(crate) fn secs(n: u64) -> (d: Duration)
    ensures
        d == duration_from_secs(n),
{
    Duration::from_secs(n)
}

/// `Duration::from_millis(ms)`.
pub uninterp spec fn duration_from_millis(ms: u64) -> Duration;

/// `std::time::Duration::from_millis`. Claimed: the result is the named
/// value `duration_from_millis(n)`, the same for the same `n`.
#[verifier::external_body]
pub(crate) fn millis(n: u64) -> (d: Duration)
    ensures
        d == duration_from_millis(n),
{
    Duration::from_millis(n)
}

} // verus!
