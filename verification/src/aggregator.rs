//! Result aggregation: pass/fail counters and accumulated durations. A
//! single owner folds outcomes in, one message at a time; nothing here is
//! shared mutable state.

use vstd::prelude::*;
use crate::lifecycle::RunOutcome;

verus! {

/// Addition on durations, saturating at the top of the counter.
pub open spec fn sat_add64(a: int, b: int) -> int {
    if a + b > u64::MAX {
        u64::MAX as int
    } else {
        a + b
    }
}

/// Saturating addition of two durations.
pub fn sat_add_u64(a: u64, b: u64) -> (r: u64)
    ensures
        r == sat_add64(a as int, b as int),
{
    if a > u64::MAX - b {
        u64::MAX
    } else {
        a + b
    }
}

/// How many of the outcomes passed.
pub open spec fn count_passed(s: Seq<RunOutcome>) -> int
    decreases s.len(),
{
    if s.len() == 0 {
        0
    } else {
        count_passed(s.drop_last()) + if s.last().passed {
            1int
        } else {
            0int
        }
    }
}

/// The accumulated run duration of the outcomes, saturating.
pub open spec fn total_run_ms_of(s: Seq<RunOutcome>) -> int
    decreases s.len(),
{
    if s.len() == 0 {
        0
    } else {
        sat_add64(total_run_ms_of(s.drop_last()), s.last().duration_ms as int)
    }
}

/// The batch's final tallies.
#[derive(Clone, Copy, PartialEq, Eq, Structural, Debug)]
pub struct BatchSummary {
    pub passed_count: u64,
    pub failed_count: u64,
    pub total_build_ms: u64,
    pub total_run_ms: u64,
}

impl BatchSummary {
    /// An empty summary.
    pub fn new() -> (s: BatchSummary)
        ensures
            s.passed_count == 0,
            s.failed_count == 0,
            s.total_build_ms == 0,
            s.total_run_ms == 0,
    {
        BatchSummary { passed_count: 0, failed_count: 0, total_build_ms: 0, total_run_ms: 0 }
    }

    /// Folds one delivered outcome into the tallies: exactly one of the two
    /// counters advances, by exactly one.
    pub fn record(&mut self, passed: bool, duration_ms: u64)
        requires
            old(self).passed_count + old(self).failed_count < u64::MAX,
        ensures
            final(self).passed_count == old(self).passed_count + if passed {
                1int
            } else {
                0int
            },
            final(self).failed_count == old(self).failed_count + if passed {
                0int
            } else {
                1int
            },
            final(self).total_build_ms == old(self).total_build_ms,
            final(self).total_run_ms == sat_add64(
                old(self).total_run_ms as int,
                duration_ms as int,
            ),
    {
        if passed {
            self.passed_count = self.passed_count + 1;
        } else {
            self.failed_count = self.failed_count + 1;
        }
        self.total_run_ms = sat_add_u64(self.total_run_ms, duration_ms);
    }
}

/// Folds a whole batch of outcomes into its summary: the counters partition
/// the outcomes — passed plus failed equals the number of outcomes — and the
/// run durations accumulate.
pub fn summarize(outcomes: &Vec<RunOutcome>, total_build_ms: u64) -> (s: BatchSummary)
    ensures
        s.passed_count == count_passed(outcomes@),
        s.passed_count + s.failed_count == outcomes@.len(),
        s.total_build_ms == total_build_ms,
        s.total_run_ms == total_run_ms_of(outcomes@),
{
    let mut s = BatchSummary::new();
    s.total_build_ms = total_build_ms;
    let mut i: usize = 0;
    proof {
        assert(outcomes@.take(0) =~= Seq::<RunOutcome>::empty());
    }
    while i < outcomes.len()
        invariant
            i <= outcomes@.len(),
            s.passed_count == count_passed(outcomes@.take(i as int)),
            s.passed_count + s.failed_count == i,
            s.total_build_ms == total_build_ms,
            s.total_run_ms == total_run_ms_of(outcomes@.take(i as int)),
        decreases outcomes@.len() - i,
    {
        proof {
            assert(outcomes@.take(i + 1).drop_last() =~= outcomes@.take(i as int));
            assert(outcomes@.take(i + 1).last() == outcomes@[i as int]);
        }
        s.record(outcomes[i].passed, outcomes[i].duration_ms);
        i = i + 1;
    }
    proof {
        assert(outcomes@.take(outcomes@.len() as int) =~= outcomes@);
    }
    s
}

} // verus!
