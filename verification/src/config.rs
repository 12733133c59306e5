//! Run configuration: the validated, immutable parameters a batch runs
//! under, constructed once and passed explicitly into the scheduler and the
//! backend adapter.

use vstd::prelude::*;
use crate::adapter::Service;

verus! {

/// The parameters shared read-only across all concurrent runs of a batch.
#[derive(Clone, Debug)]
pub struct RunConfig {
    pub service: Service,
    pub timeout_seconds: u64,
    pub output_dir: String,
    pub continue_on_error: bool,
    pub parallelism: usize,
}

impl RunConfig {
    /// At least one worker runs.
    pub open spec fn wf(&self) -> bool {
        self.parallelism >= 1
    }
}

/// Relies on num_cpus::get: the number of available logical CPUs of the
/// current system, which is always at least 1.
#[verifier::external_body]
fn available_cpus() -> (r: usize)
    ensures
        r >= 1,
{
    num_cpus::get()
}

/// The worker ceiling for the run phase: the requested parallelism, or the
/// machine's available processing units when the caller requested none.
/// Always at least one worker.
pub fn effective_parallelism(requested: usize) -> (r: usize)
    ensures
        requested != 0 ==> r == requested,
        r >= 1,
{
    if requested == 0 {
        available_cpus()
    } else {
        requested
    }
}

} // verus!
