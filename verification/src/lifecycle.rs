//! Run lifecycle decisions: how one test's terminal verdict follows from the
//! race between natural process exit, scenario success and timeout expiry.
//! The caller spawns the backend, reads its output and runs the clock; every
//! decision about what an observation means is made here.

use vstd::prelude::*;
use crate::descriptor::TestDescriptor;
use crate::matcher::Scenario;
use crate::matcher::ScenarioMatcher;
use crate::matcher::matcher_step;

verus! {

/// An event observed while a spawned backend runs.
#[derive(Debug)]
pub enum RunEvent {
    /// A line of serial/console output was observed.
    LineObserved(String),
    /// The process exited on its own; `success` is its exit status.
    ProcessExited { success: bool },
    /// The timeout fired before any other terminal condition.
    TimeoutExpired,
}

/// What the lifecycle has decided after an event.
#[derive(Clone, Copy, PartialEq, Eq, Structural, Debug)]
pub enum RunStatus {
    /// No terminal condition reached: keep observing.
    Running,
    /// The run is decided. `must_kill` says the backend process has to be
    /// terminated because it is not expected to exit on its own.
    Finished { passed: bool, must_kill: bool },
}

/// The evolving state of one run: the scenario matcher, and whether a
/// scenario is configured at all. Without one, the matcher is empty and the
/// verdict is deferred entirely to the process exit status.
pub struct RunLifecycle {
    pub matcher: ScenarioMatcher,
    pub has_scenario: bool,
}

/// The scenario gate for a natural exit: vacuously open when no scenario is
/// configured, otherwise open once the matcher is complete.
pub open spec fn scenario_gate_open(st: RunLifecycle) -> bool {
    !st.has_scenario || st.matcher.complete()
}

/// The decision after a line has been fed to the matcher: scenario success
/// is terminal the instant the matcher completes, and authoritative — the
/// process is then killed without waiting for its exit status.
pub open spec fn decide_after_line(st: RunLifecycle) -> RunStatus {
    if st.has_scenario && st.matcher.complete() {
        RunStatus::Finished { passed: true, must_kill: true }
    } else {
        RunStatus::Running
    }
}

/// The decision on a natural exit: pass exactly when the exit status
/// indicates success and the scenario gate is open.
pub open spec fn decide_on_exit(st: RunLifecycle, success: bool) -> RunStatus {
    RunStatus::Finished { passed: success && scenario_gate_open(st), must_kill: false }
}

/// The decision on timeout expiry: a failed outcome, and the process must be
/// forcefully terminated.
pub open spec fn decide_on_timeout() -> RunStatus {
    RunStatus::Finished { passed: false, must_kill: true }
}

impl RunLifecycle {
    pub open spec fn wf(&self) -> bool {
        &&& self.matcher.wf()
        &&& (!self.has_scenario ==> self.matcher.steps@.len() == 0)
    }

    /// A lifecycle for a run gated by `scenario`, or ungated when none is
    /// configured.
    pub fn new(scenario: Option<Scenario>) -> (st: RunLifecycle)
        ensures
            st.wf(),
            st.matcher.next == 0,
            st.has_scenario == scenario is Some,
            scenario matches Some(sc) ==> st.matcher.steps@ == sc.steps@,
    {
        match scenario {
            Some(sc) => RunLifecycle { matcher: ScenarioMatcher::new(sc), has_scenario: true },
            None => RunLifecycle {
                matcher: ScenarioMatcher::new(Scenario { steps: Vec::new() }),
                has_scenario: false,
            },
        }
    }

    /// Feeds one observed event to the lifecycle and reports whether the run
    /// is decided. A line steps the matcher; an exit or a timeout leaves it
    /// untouched.
    pub fn on_event(&mut self, ev: RunEvent) -> (r: RunStatus)
        requires
            old(self).wf(),
        ensures
            final(self).wf(),
            final(self).has_scenario == old(self).has_scenario,
            final(self).matcher.steps == old(self).matcher.steps,
            match ev {
                RunEvent::LineObserved(line) => {
                    &&& final(self).matcher.next == matcher_step(
                        old(self).matcher.texts(),
                        old(self).matcher.next as nat,
                        line@,
                    )
                    &&& r == decide_after_line(*final(self))
                },
                RunEvent::ProcessExited { success } => {
                    &&& final(self).matcher.next == old(self).matcher.next
                    &&& r == decide_on_exit(*old(self), success)
                },
                RunEvent::TimeoutExpired => {
                    &&& final(self).matcher.next == old(self).matcher.next
                    &&& r == decide_on_timeout()
                },
            },
    {
        match ev {
            RunEvent::LineObserved(line) => {
                self.matcher.observe_line(line.as_str());
                if self.has_scenario && self.matcher.is_complete() {
                    RunStatus::Finished { passed: true, must_kill: true }
                } else {
                    RunStatus::Running
                }
            },
            RunEvent::ProcessExited { success } => {
                let gate = !self.has_scenario || self.matcher.is_complete();
                RunStatus::Finished { passed: success && gate, must_kill: false }
            },
            RunEvent::TimeoutExpired => {
                RunStatus::Finished { passed: false, must_kill: true }
            },
        }
    }
}

/// The final verdict plus archived evidence for one descriptor.
#[derive(Clone, Debug)]
pub struct RunOutcome {
    pub descriptor: TestDescriptor,
    pub passed: bool,
    pub log_path: String,
    pub duration_ms: u64,
}

/// A spawn failure (backend executable missing or unexecutable) degrades to
/// a failed outcome for that one descriptor; it never unwinds the batch.
pub fn outcome_for_spawn_failure(
    descriptor: TestDescriptor,
    log_path: String,
    duration_ms: u64,
) -> (r: RunOutcome)
    ensures
        !r.passed,
        r.descriptor == descriptor,
        r.log_path == log_path,
        r.duration_ms == duration_ms,
{
    RunOutcome { descriptor, passed: false, log_path, duration_ms }
}

/// Whatever state a run is in, timeout expiry decides it as failed and
/// demands that the spawned process be terminated; it is never fatal to the
/// batch.
pub proof fn lemma_timeout_always_fails_and_kills()
    ensures
        decide_on_timeout() == (RunStatus::Finished { passed: false, must_kill: true }),
{
}

/// With no scenario configured, a natural exit decides the run by the exit
/// status alone: success passes, failure fails.
pub proof fn lemma_exit_without_scenario(st: RunLifecycle, success: bool)
    requires
        !st.has_scenario,
    ensures
        decide_on_exit(st, success) == (RunStatus::Finished {
            passed: success,
            must_kill: false,
        }),
{
}

/// With a scenario configured and still unsatisfied, a natural exit fails
/// the run whatever the exit status.
pub proof fn lemma_exit_with_unsatisfied_scenario(st: RunLifecycle, success: bool)
    requires
        st.has_scenario,
        !st.matcher.complete(),
    ensures
        decide_on_exit(st, success) == (RunStatus::Finished {
            passed: false,
            must_kill: false,
        }),
{
}

} // verus!
