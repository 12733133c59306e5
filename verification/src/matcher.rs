//! Scenario matcher: a state machine over an ordered sequence of expected
//! serial events. The state is the index of the next unmatched step; a newly
//! observed line advances the state by one exactly when it contains the
//! current step's match text, and the matcher never retreats.

use vstd::prelude::*;
use crate::strutil::is_substring_of;
use crate::strutil::str_contains;

verus! {

/// One expected serial event: a literal substring awaited on the output
/// stream.
#[derive(Clone, Debug)]
pub struct ExpectedEvent {
    pub match_text: String,
}

/// An ordered scenario of expected serial events. Read-only after load.
#[derive(Clone, Debug)]
pub struct Scenario {
    pub steps: Vec<ExpectedEvent>,
}

/// The match texts of a step sequence, as character sequences.
pub open spec fn step_texts(steps: Seq<ExpectedEvent>) -> Seq<Seq<char>> {
    steps.map_values(|e: ExpectedEvent| e.match_text@)
}

/// One matcher transition: from state `k`, a line advances to `k + 1`
/// exactly when it contains step `k`'s text; otherwise the state is
/// unchanged. The terminal state `steps.len()` never advances.
pub open spec fn matcher_step(steps: Seq<Seq<char>>, k: nat, line: Seq<char>) -> nat {
    if k < steps.len() && is_substring_of(steps[k as int], line) {
        k + 1
    } else {
        k
    }
}

/// The matcher state after observing `lines` in order, starting from `k`.
pub open spec fn matcher_run(steps: Seq<Seq<char>>, k: nat, lines: Seq<Seq<char>>) -> nat
    decreases lines.len(),
{
    if lines.len() == 0 {
        k
    } else {
        matcher_run(steps, matcher_step(steps, k, lines[0]), lines.drop_first())
    }
}

/// The stateful matcher over a loaded scenario.
pub struct ScenarioMatcher {
    pub steps: Vec<ExpectedEvent>,
    pub next: usize,
}

impl ScenarioMatcher {
    /// The match texts this matcher awaits.
    pub open spec fn texts(&self) -> Seq<Seq<char>> {
        step_texts(self.steps@)
    }

    /// The state is an index into the steps, or one past the last: the
    /// terminal state.
    pub open spec fn wf(&self) -> bool {
        self.next <= self.steps@.len()
    }

    /// The terminal state: every step has been matched.
    pub open spec fn complete(&self) -> bool {
        self.next == self.steps@.len()
    }

    /// A fresh matcher positioned at the scenario's first step.
    pub fn new(scenario: Scenario) -> (m: ScenarioMatcher)
        ensures
            m.wf(),
            m.steps@ == scenario.steps@,
            m.next == 0,
    {
        ScenarioMatcher { steps: scenario.steps, next: 0 }
    }

    /// Feeds one observed line to the matcher.
    pub fn observe_line(&mut self, line: &str)
        requires
            old(self).wf(),
        ensures
            final(self).wf(),
            final(self).steps == old(self).steps,
            final(self).next == matcher_step(old(self).texts(), old(self).next as nat, line@),
    {
        if self.next < self.steps.len() {
            let text = &self.steps[self.next].match_text;
            if str_contains(line, text.as_str()) {
                assert(self.texts()[self.next as int] == self.steps@[self.next as int].match_text@);
                self.next = self.next + 1;
            } else {
                assert(self.texts()[self.next as int] == self.steps@[self.next as int].match_text@);
            }
        }
    }

    /// Feeds a batch of observed lines, in order.
    pub fn observe_lines(&mut self, lines: &Vec<String>)
        requires
            old(self).wf(),
        ensures
            final(self).wf(),
            final(self).steps == old(self).steps,
            final(self).next == matcher_run(
                old(self).texts(),
                old(self).next as nat,
                lines.deep_view(),
            ),
    {
        proof {
            assert(lines.deep_view().skip(0) =~= lines.deep_view());
        }
        let mut i: usize = 0;
        while i < lines.len()
            invariant
                self.wf(),
                self.steps == old(self).steps,
                i <= lines@.len(),
                matcher_run(old(self).texts(), old(self).next as nat, lines.deep_view())
                    == matcher_run(self.texts(), self.next as nat, lines.deep_view().skip(i as int)),
            decreases lines@.len() - i,
    {
            let ghost rest = lines.deep_view().skip(i as int);
            self.observe_line(lines[i].as_str());
            proof {
                assert(rest.len() > 0);
                assert(rest[0] == lines.deep_view()[i as int]);
                assert(rest.drop_first() =~= lines.deep_view().skip(i + 1));
            }
            i = i + 1;
        }
        proof {
            assert(lines.deep_view().skip(lines@.len() as int).len() == 0);
        }
    }

    /// Reports whether the matcher has reached the terminal state.
    pub fn is_complete(&self) -> (r: bool)
        ensures
            r == self.complete(),
    {
        self.next == self.steps.len()
    }
}

/// A matcher transition never moves the state backwards, and never past the
/// terminal state.
pub proof fn lemma_matcher_step_bounds(steps: Seq<Seq<char>>, k: nat, line: Seq<char>)
    requires
        k <= steps.len(),
    ensures
        k <= matcher_step(steps, k, line) <= steps.len(),
        matcher_step(steps, k, line) <= k + 1,
{
}

/// A line that does not contain the current step's text leaves the matcher
/// in place, whatever later steps' texts it contains: a line may satisfy at
/// most the current step, so matching a step ahead of the pointer cannot
/// advance the state.
pub proof fn lemma_line_for_later_step_does_not_advance(
    steps: Seq<Seq<char>>,
    k: nat,
    line: Seq<char>,
)
    requires
        k < steps.len(),
        !is_substring_of(steps[k as int], line),
    ensures
        matcher_step(steps, k, line) == k,
{
}

/// The texts of `steps` appear in order across `lines`: there is a way to
/// match each step's text inside a line of its own, each at or after the
/// line that served the step before it.
pub open spec fn appear_in_order(steps: Seq<Seq<char>>, lines: Seq<Seq<char>>) -> bool
    decreases lines.len(),
{
    if steps.len() == 0 {
        true
    } else if lines.len() == 0 {
        false
    } else if is_substring_of(steps[0], lines[0]) {
        appear_in_order(steps.drop_first(), lines.drop_first()) || appear_in_order(
            steps,
            lines.drop_first(),
        )
    } else {
        appear_in_order(steps, lines.drop_first())
    }
}

/// From the terminal state the matcher stays put, whatever it observes: it
/// never un-matches a previously matched step.
pub proof fn lemma_run_from_terminal(steps: Seq<Seq<char>>, lines: Seq<Seq<char>>)
    ensures
        matcher_run(steps, steps.len(), lines) == steps.len(),
    decreases lines.len(),
{
    if lines.len() > 0 {
        lemma_run_from_terminal(steps, lines.drop_first());
    }
}

/// If a step sequence appears in order across `lines`, so does the sequence
/// without its first step.
proof fn lemma_appearance_drop_step(steps: Seq<Seq<char>>, lines: Seq<Seq<char>>)
    requires
        steps.len() > 0,
        appear_in_order(steps, lines),
    ensures
        appear_in_order(steps.drop_first(), lines),
    decreases lines.len(),
{
    if steps.len() == 1 {
    } else {
        assert(lines.len() > 0);
        if is_substring_of(steps[0], lines[0]) {
            if appear_in_order(steps.drop_first(), lines.drop_first()) {
                if is_substring_of(steps.drop_first()[0], lines[0]) {
                } else {
                    assert(appear_in_order(steps.drop_first(), lines));
                }
            } else {
                lemma_appearance_drop_step(steps, lines.drop_first());
                if is_substring_of(steps.drop_first()[0], lines[0]) {
                } else {
                    assert(appear_in_order(steps.drop_first(), lines));
                }
            }
        } else {
            lemma_appearance_drop_step(steps, lines.drop_first());
            if is_substring_of(steps.drop_first()[0], lines[0]) {
            } else {
                assert(appear_in_order(steps.drop_first(), lines));
            }
        }
    }
}

/// Completeness of the matcher: if the texts of the steps still ahead of
/// state `k` appear in order across the observed lines, the matcher reaches
/// the terminal state.
pub proof fn lemma_ordered_appearance_completes(
    steps: Seq<Seq<char>>,
    k: nat,
    lines: Seq<Seq<char>>,
)
    requires
        k <= steps.len(),
        appear_in_order(steps.skip(k as int), lines),
    ensures
        matcher_run(steps, k, lines) == steps.len(),
    decreases lines.len(),
{
    if k == steps.len() {
        assert(steps.skip(k as int).len() == 0);
        lemma_run_from_terminal(steps, lines);
    } else {
        let ahead = steps.skip(k as int);
        assert(ahead.len() > 0);
        assert(lines.len() > 0);
        assert(ahead[0] == steps[k as int]);
        if is_substring_of(steps[k as int], lines[0]) {
            assert(matcher_step(steps, k, lines[0]) == k + 1);
            if appear_in_order(ahead.drop_first(), lines.drop_first()) {
            } else {
                assert(appear_in_order(ahead, lines.drop_first()));
                lemma_appearance_drop_step(ahead, lines.drop_first());
            }
            assert(ahead.drop_first() =~= steps.skip(k as int + 1));
            lemma_ordered_appearance_completes(steps, k + 1, lines.drop_first());
        } else {
            assert(matcher_step(steps, k, lines[0]) == k);
            assert(appear_in_order(ahead, lines.drop_first()));
            lemma_ordered_appearance_completes(steps, k, lines.drop_first());
        }
    }
}

/// Soundness of the matcher: if step `j`'s text is contained in none of the
/// observed lines, the matcher never advances past step `j`; in particular,
/// when `j` is a real step it never reaches the terminal state.
pub proof fn lemma_missing_step_blocks(steps: Seq<Seq<char>>, k: nat, lines: Seq<Seq<char>>, j: nat)
    requires
        k <= j < steps.len(),
        forall|i: int| 0 <= i < lines.len() ==> !is_substring_of(steps[j as int], #[trigger] lines[i]),
    ensures
        matcher_run(steps, k, lines) <= j < steps.len(),
    decreases lines.len(),
{
    if lines.len() == 0 {
    } else {
        let k1 = matcher_step(steps, k, lines[0]);
        assert(!is_substring_of(steps[j as int], lines[0]));
        assert(k1 <= j);
        assert forall|i: int| 0 <= i < lines.drop_first().len() implies !is_substring_of(
            steps[j as int],
            #[trigger] lines.drop_first()[i],
        ) by {
            assert(lines.drop_first()[i] == lines[i + 1]);
        }
        lemma_missing_step_blocks(steps, k1, lines.drop_first(), j);
    }
}

} // verus!
