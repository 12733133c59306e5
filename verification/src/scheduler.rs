//! Scheduler bookkeeping for the bounded-concurrency run phase: which run
//! may start next, and when the batch is drained. The caller owns the tasks;
//! every counting decision is made here.

use vstd::prelude::*;

verus! {

/// Progress of the run phase over a fixed batch of descriptors.
#[derive(Clone, Copy, PartialEq, Eq, Structural, Debug)]
pub struct SchedulerState {
    /// How many descriptors the batch holds.
    pub total: usize,
    /// How many runs have been started.
    pub started: usize,
    /// How many outcomes have been delivered.
    pub finished: usize,
    /// A fatal failure was observed: no new run may start. In-flight runs
    /// still finish and deliver their outcomes.
    pub stopped: bool,
}

impl SchedulerState {
    /// Counters never run ahead of each other or of the batch size.
    pub open spec fn wf(&self) -> bool {
        self.finished <= self.started <= self.total
    }

    /// Runs started and not yet finished.
    pub open spec fn in_flight(&self) -> int {
        self.started - self.finished
    }

    /// A fresh scheduler for a batch of `total` descriptors.
    pub fn new(total: usize) -> (s: SchedulerState)
        ensures
            s.wf(),
            s.total == total,
            s.started == 0,
            s.finished == 0,
            !s.stopped,
    {
        SchedulerState { total, started: 0, finished: 0, stopped: false }
    }

    /// Whether the next descriptor's run may start now, under the
    /// concurrency ceiling `limit`: the batch is not stopped, descriptors
    /// remain, and a worker slot is free.
    pub fn may_start(&self, limit: usize) -> (r: bool)
        requires
            self.wf(),
        ensures
            r == (!self.stopped && self.started < self.total && self.in_flight() < limit),
    {
        !self.stopped && self.started < self.total && self.started - self.finished < limit
    }

    /// Records that the next descriptor's run has started.
    pub fn note_started(&mut self)
        requires
            old(self).wf(),
            old(self).started < old(self).total,
        ensures
            final(self).wf(),
            final(self).started == old(self).started + 1,
            final(self).finished == old(self).finished,
            final(self).total == old(self).total,
            final(self).stopped == old(self).stopped,
    {
        self.started = self.started + 1;
    }

    /// Records one delivered outcome. A failed outcome stops the batch from
    /// starting new runs when continue-on-error is off; nothing ever
    /// retracts a start, so in-flight runs always finish and deliver.
    pub fn note_outcome(&mut self, passed: bool, continue_on_error: bool)
        requires
            old(self).wf(),
            old(self).finished < old(self).started,
        ensures
            final(self).wf(),
            final(self).finished == old(self).finished + 1,
            final(self).started == old(self).started,
            final(self).total == old(self).total,
            final(self).stopped == (old(self).stopped || (!passed && !continue_on_error)),
    {
        self.finished = self.finished + 1;
        if !passed && !continue_on_error {
            self.stopped = true;
        }
    }

    /// The run phase is over: nothing is in flight, and either the batch was
    /// stopped or every descriptor has been started.
    pub fn drained(&self) -> (r: bool)
        requires
            self.wf(),
        ensures
            r == (self.in_flight() == 0 && (self.stopped || self.started == self.total)),
    {
        self.finished == self.started && (self.stopped || self.started == self.total)
    }
}

/// Exactly one outcome is delivered per discovered descriptor: when the run
/// phase drains without a batch stop — in particular whenever
/// continue-on-error is enabled, which keeps `stopped` false through every
/// failure — the number of outcomes equals the number of descriptors.
pub proof fn lemma_drained_batch_counts_all_descriptors(s: SchedulerState)
    requires
        s.wf(),
        s.in_flight() == 0,
        s.stopped || s.started == s.total,
        !s.stopped,
    ensures
        s.finished == s.total,
{
}

} // verus!
