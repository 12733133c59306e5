//! Error kinds of the orchestrator and the batch propagation policy: which
//! failures abort the batch and which degrade to a recorded failed outcome.

use vstd::prelude::*;

verus! {

/// The kinds of failure the orchestrator distinguishes.
#[derive(Clone, Copy, PartialEq, Eq, Structural, Debug)]
pub enum ErrorKind {
    /// Unknown backend service or malformed scenario file.
    Configuration,
    /// The build tool failed for one descriptor.
    BuildFailure,
    /// The backend executable is missing or cannot be spawned.
    SpawnFailure,
    /// The run outlived its timeout.
    TimeoutExceeded,
    /// The stream ended or timed out before every scenario step matched.
    ScenarioMismatch,
}

/// The propagation policy: configuration errors always abort the batch;
/// a build failure aborts it unless continue-on-error is set; failures of a
/// single run never abort the batch and degrade to a failed outcome.
pub open spec fn fatal(kind: ErrorKind, continue_on_error: bool) -> bool {
    match kind {
        ErrorKind::Configuration => true,
        ErrorKind::BuildFailure => !continue_on_error,
        ErrorKind::SpawnFailure => false,
        ErrorKind::TimeoutExceeded => false,
        ErrorKind::ScenarioMismatch => false,
    }
}

/// Decides whether an error stops the batch.
pub fn error_is_fatal(kind: ErrorKind, continue_on_error: bool) -> (r: bool)
    ensures
        r == fatal(kind, continue_on_error),
{
    match kind {
        ErrorKind::Configuration => true,
        ErrorKind::BuildFailure => !continue_on_error,
        ErrorKind::SpawnFailure => false,
        ErrorKind::TimeoutExceeded => false,
        ErrorKind::ScenarioMismatch => false,
    }
}

} // verus!
