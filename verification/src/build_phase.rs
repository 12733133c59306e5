//! Build coordinator bookkeeping: the build tool runs strictly sequentially
//! — its output directory is a shared, non-reentrant resource — and this
//! module decides what each build result means for the batch. The caller
//! invokes the build tool; the command line and every decision come from
//! here.

use vstd::prelude::*;
use vstd::string::StringExecFns;
use crate::aggregator::sat_add64;
use crate::aggregator::sat_add_u64;
use crate::descriptor::BuildMode;
use crate::descriptor::DescView;
use crate::descriptor::TestDescriptor;

verus! {

/// The build tool invocation for one descriptor:
/// `build --example <name>`, plus `--release` in release mode.
pub open spec fn build_args_spec(d: DescView) -> Seq<Seq<char>> {
    if d.mode == BuildMode::Release {
        seq!["build"@, "--example"@, d.name, "--release"@]
    } else {
        seq!["build"@, "--example"@, d.name]
    }
}

/// Builds the argument list handed to the build tool for one descriptor.
pub fn build_command_args(d: &TestDescriptor) -> (r: Vec<String>)
    ensures
        r.deep_view() == build_args_spec(d@),
{
    let mut args: Vec<String> = Vec::new();
    args.push(String::from_str("build"));
    args.push(String::from_str("--example"));
    args.push(String::from_str(d.name.as_str()));
    if matches!(d.mode, BuildMode::Release) {
        args.push(String::from_str("--release"));
    }
    proof {
        assert(args.deep_view() =~~= build_args_spec(d@));
    }
    args
}

/// Progress of the sequential build phase.
pub struct BuildPhase {
    /// Descriptors whose build succeeded, in build order: the run phase's
    /// input.
    pub runnable: Vec<TestDescriptor>,
    /// Descriptors whose build failed under continue-on-error: they are
    /// recorded as failed outcomes without ever being run.
    pub failed: Vec<TestDescriptor>,
    /// Accumulated build duration.
    pub total_build_ms: u64,
    /// A build failed while continue-on-error was off: the batch aborts
    /// before any run starts.
    pub aborted: bool,
}

impl BuildPhase {
    /// A fresh build phase.
    pub fn new() -> (b: BuildPhase)
        ensures
            b.runnable@.len() == 0,
            b.failed@.len() == 0,
            b.total_build_ms == 0,
            !b.aborted,
    {
        BuildPhase { runnable: Vec::new(), failed: Vec::new(), total_build_ms: 0, aborted: false }
    }

    /// Folds in the result of one build invocation. A success queues the
    /// descriptor for the run phase; a failure either degrades to a recorded
    /// failed outcome (continue-on-error) or aborts the batch. Every
    /// descriptor processed before an abort is accounted for exactly once,
    /// as runnable or as failed.
    pub fn note_build_result(
        &mut self,
        d: TestDescriptor,
        ok: bool,
        continue_on_error: bool,
        elapsed_ms: u64,
    )
        requires
            !old(self).aborted,
        ensures
            final(self).total_build_ms == sat_add64(
                old(self).total_build_ms as int,
                elapsed_ms as int,
            ),
            final(self).aborted == (!ok && !continue_on_error),
            ok ==> final(self).runnable@ == old(self).runnable@.push(d) && final(self).failed@
                == old(self).failed@,
            (!ok && continue_on_error) ==> final(self).failed@ == old(self).failed@.push(d)
                && final(self).runnable@ == old(self).runnable@,
            (!ok && !continue_on_error) ==> final(self).runnable@ == old(self).runnable@
                && final(self).failed@ == old(self).failed@,
    {
        self.total_build_ms = sat_add_u64(self.total_build_ms, elapsed_ms);
        if ok {
            self.runnable.push(d);
        } else if continue_on_error {
            self.failed.push(d);
        } else {
            self.aborted = true;
        }
    }
}

} // verus!
