//! Loop-controller decisions: one-shot versus repeating execution, and
//! the outcome of a kill request. The driver performs the suspensions,
//! queries and signals; these functions decide.

use vstd::prelude::*;

use crate::text::str_eq;

verus! {

/// Whether the mode name selects continuous (watch) execution; every
/// other mode name means a single report.
pub fn is_watch_mode(mode: &str) -> (b: bool)
    ensures
        b == (mode@ == "watch"@),
{
    str_eq(mode, "watch")
}

/// How a kill request ended.
#[derive(Clone, Copy, PartialEq, Eq, Structural, Debug)]
pub enum KillOutcome {
    /// The termination signal was sent.
    Killed,
    /// The target exists but the signal could not be sent (for
    /// example, for want of privileges, or the process just exited).
    SignalFailed,
    /// No process with the requested identifier exists.
    NotFound,
}

/// The outcome of a kill request, from whether the target was found
/// and whether the signal went through.
pub open spec fn spec_kill_outcome(found: bool, signalled: bool) -> KillOutcome {
    if !found {
        KillOutcome::NotFound
    } else if signalled {
        KillOutcome::Killed
    } else {
        KillOutcome::SignalFailed
    }
}

/// Decides how a kill request ended.
pub fn kill_outcome(found: bool, signalled: bool) -> (o: KillOutcome)
    ensures
        o == spec_kill_outcome(found, signalled),
{
    if !found {
        KillOutcome::NotFound
    } else if signalled {
        KillOutcome::Killed
    } else {
        KillOutcome::SignalFailed
    }
}

} // verus!
