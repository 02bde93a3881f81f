//! The execution scheduler, modelled as an explicit state machine.
//!
//! A `TestRunner` tracks, per test case, the attempts made so far and whether
//! the case is pending, in flight, or finalized.  The caller (which owns the
//! actual child processes) drives the machine: `start_next` hands out the next
//! attempt to launch, `finish_attempt` records how an attempt ended, `cancel`
//! requests a stop, and `finish_run` closes the run.  Every transition appends
//! to an ordered stream of `RunEvent`s; the well-formedness predicate `wf` ties
//! the stream to the state and carries the run's hard invariants: at most
//! `concurrency_limit` attempts in flight, at most `retry_budget + 1` attempts
//! per case, no attempt after a success, at most one finalized event per case,
//! and no attempt at all for skipped cases.

use vstd::prelude::*;
use crate::test_filter::RunIgnored;

verus! {

/// Classification of one attempt of one test case.
#[derive(Clone, Copy, Debug, PartialEq, Eq, Structural)]
pub enum ExecutionResult {
    /// The test passed.
    Pass,
    /// The test passed but left behind descendant processes; reported, not
    /// treated as a failure.
    Leak,
    /// The test ran and reported failure.
    Fail,
    /// The test could not be launched or its output could not be read.
    ExecFail,
    /// The test did not exit within its timeout and was killed.
    Timeout,
}

impl ExecutionResult {
    /// Whether the attempt counts as a success (leaks are advisory).
    pub open spec fn spec_is_success(self) -> bool {
        self is Pass || self is Leak
    }

    /// Decides `spec_is_success`.
    pub fn is_success(self) -> (r: bool)
        ensures
            r == self.spec_is_success(),
    {
        match self {
            ExecutionResult::Pass | ExecutionResult::Leak => true,
            _ => false,
        }
    }
}

/// The final, retry-resolved disposition of a test case.
#[derive(Clone, Copy, Debug, PartialEq, Eq, Structural)]
pub enum TestCaseOutcome {
    /// Passed on the first attempt.
    Passed,
    /// All attempts failed with in-test failures.
    Failed,
    /// Failed at least once, then passed within the retry budget.
    Flaky,
    /// The terminal attempt could not even be launched.
    ExecutionFailed,
    /// The terminal attempt timed out.
    TimedOut,
    /// Ignored and not explicitly requested; never executed.
    Skipped,
}

/// The outcome determined by a non-empty attempt history: a success on the
/// first attempt is `Passed` and on a later attempt `Flaky`; with no success,
/// the terminal attempt decides between `TimedOut`, `ExecutionFailed` and
/// `Failed`.
pub open spec fn spec_outcome_of(attempts: Seq<ExecutionResult>) -> TestCaseOutcome
    recommends
        attempts.len() > 0,
{
    if attempts.last().spec_is_success() {
        if attempts.len() == 1 {
            TestCaseOutcome::Passed
        } else {
            TestCaseOutcome::Flaky
        }
    } else if attempts.last() is Timeout {
        TestCaseOutcome::TimedOut
    } else if attempts.last() is ExecFail {
        TestCaseOutcome::ExecutionFailed
    } else {
        TestCaseOutcome::Failed
    }
}

/// Decides `spec_outcome_of`.
pub fn outcome_of(attempts: &Vec<ExecutionResult>) -> (r: TestCaseOutcome)
    requires
        attempts@.len() > 0,
    ensures
        r == spec_outcome_of(attempts@),
{
    let last = attempts[attempts.len() - 1];
    if last.is_success() {
        if attempts.len() == 1 {
            TestCaseOutcome::Passed
        } else {
            TestCaseOutcome::Flaky
        }
    } else {
        match last {
            ExecutionResult::Timeout => TestCaseOutcome::TimedOut,
            ExecutionResult::ExecFail => TestCaseOutcome::ExecutionFailed,
            _ => TestCaseOutcome::Failed,
        }
    }
}

/// One timestamped record of one occurrence in the run.  Events are append
/// only: the stream is never revised.
#[derive(Clone, Copy, Debug, PartialEq, Eq, Structural)]
pub enum RunEvent {
    /// The test list was built; the run covers `test_count` cases.
    ListBuilt { timestamp: u64, test_count: usize },
    /// Attempt `attempt` (1-based) of case `test` was started.
    AttemptStarted { timestamp: u64, test: usize, attempt: usize },
    /// Attempt `attempt` of case `test` finished with `result`.
    AttemptFinished { timestamp: u64, test: usize, attempt: usize, result: ExecutionResult },
    /// Case `test` was finalized with `outcome`; emitted exactly once per case.
    TestFinalized { timestamp: u64, test: usize, outcome: TestCaseOutcome },
    /// The run finished; `not_run` cases never got a chance to run.
    RunFinished { timestamp: u64, finalized: usize, not_run: usize },
}

/// Whether `e` starts an attempt of case `t`.
pub open spec fn is_started_for(e: RunEvent, t: int) -> bool {
    e matches RunEvent::AttemptStarted { test, .. } && test == t
}

/// Whether `e` finishes an attempt of case `t`.
pub open spec fn is_finished_for(e: RunEvent, t: int) -> bool {
    e matches RunEvent::AttemptFinished { test, .. } && test == t
}

/// Whether `e` finalizes case `t`.
pub open spec fn is_finalized_for(e: RunEvent, t: int) -> bool {
    e matches RunEvent::TestFinalized { test, .. } && test == t
}

/// How many attempt-started events the stream holds for case `t`.
pub open spec fn count_started(events: Seq<RunEvent>, t: int) -> nat
    decreases events.len(),
{
    if events.len() == 0 {
        0
    } else {
        count_started(events.drop_last(), t) + (if is_started_for(events.last(), t) {
            1nat
        } else {
            0nat
        })
    }
}

/// How many attempt-finished events the stream holds for case `t`.
pub open spec fn count_finished(events: Seq<RunEvent>, t: int) -> nat
    decreases events.len(),
{
    if events.len() == 0 {
        0
    } else {
        count_finished(events.drop_last(), t) + (if is_finished_for(events.last(), t) {
            1nat
        } else {
            0nat
        })
    }
}

/// How many finalized events the stream holds for case `t`.
pub open spec fn count_finalized(events: Seq<RunEvent>, t: int) -> nat
    decreases events.len(),
{
    if events.len() == 0 {
        0
    } else {
        count_finalized(events.drop_last(), t) + (if is_finalized_for(events.last(), t) {
            1nat
        } else {
            0nat
        })
    }
}

/// How many run-finished events the stream holds.
pub open spec fn count_run_finished(events: Seq<RunEvent>) -> nat
    decreases events.len(),
{
    if events.len() == 0 {
        0
    } else {
        count_run_finished(events.drop_last()) + (if events.last() is RunFinished {
            1nat
        } else {
            0nat
        })
    }
}

/// Appending one event moves each per-case counter by exactly its match.
pub proof fn lemma_counts_push(events: Seq<RunEvent>, e: RunEvent, t: int)
    ensures
        count_started(events.push(e), t) == count_started(events, t) + (if is_started_for(e, t) {
            1nat
        } else {
            0nat
        }),
        count_finished(events.push(e), t) == count_finished(events, t) + (if is_finished_for(
            e,
            t,
        ) {
            1nat
        } else {
            0nat
        }),
        count_finalized(events.push(e), t) == count_finalized(events, t) + (if is_finalized_for(
            e,
            t,
        ) {
            1nat
        } else {
            0nat
        }),
        count_run_finished(events.push(e)) == count_run_finished(events) + (if e is RunFinished {
            1nat
        } else {
            0nat
        }),
{
    assert(events.push(e).drop_last() =~= events);
    assert(events.push(e).last() == e);
}

/// A stream with no finalized event for `t` has none at any position.
proof fn lemma_no_finalized_when_zero(events: Seq<RunEvent>, t: int)
    requires
        count_finalized(events, t) == 0,
    ensures
        forall|p: int| 0 <= p < events.len() ==> !is_finalized_for(#[trigger] events[p], t),
    decreases events.len(),
{
    if events.len() > 0 {
        lemma_no_finalized_when_zero(events.drop_last(), t);
        assert forall|p: int| 0 <= p < events.len() implies !is_finalized_for(
            #[trigger] events[p],
            t,
        ) by {
            if p < events.len() - 1 {
                assert(events.drop_last()[p] == events[p]);
            }
        }
    }
}

/// A run-finished event at some position makes the counter positive.
proof fn lemma_run_finished_at(events: Seq<RunEvent>, p: int)
    requires
        0 <= p < events.len(),
        events[p] is RunFinished,
    ensures
        count_run_finished(events) >= 1,
    decreases events.len(),
{
    if p < events.len() - 1 {
        lemma_run_finished_at(events.drop_last(), p);
    }
}

/// Two run-finished events at distinct positions make the counter at least
/// two.
proof fn lemma_two_run_finished(events: Seq<RunEvent>, p: int, q: int)
    requires
        0 <= p < q < events.len(),
        events[p] is RunFinished,
        events[q] is RunFinished,
    ensures
        count_run_finished(events) >= 2,
    decreases events.len(),
{
    if q < events.len() - 1 {
        lemma_two_run_finished(events.drop_last(), p, q);
    } else {
        lemma_run_finished_at(events.drop_last(), p);
    }
}

/// One test case to schedule.
#[derive(Clone, Copy, Debug, PartialEq, Eq, Structural)]
pub struct PlannedTest {
    /// Whether the test is flagged ignored.
    pub ignored: bool,
    /// How many retries the effective policy grants beyond the first attempt.
    pub retry_budget: usize,
}

/// The scheduler's view of one test case.
#[derive(Clone, Debug)]
pub struct TestCaseState {
    /// Ignored and not explicitly requested: finalized as skipped at
    /// construction, never scheduled.
    pub skipped: bool,
    /// Retries allowed beyond the first attempt.
    pub retry_budget: usize,
    /// The results of completed attempts, in order.
    pub attempts: Vec<ExecutionResult>,
    /// Whether an attempt is in flight.
    pub running: bool,
    /// The final outcome, once determined.
    pub outcome: Option<TestCaseOutcome>,
}

impl TestCaseState {
    /// A pending case can be handed out for an attempt.
    pub open spec fn is_pending(self) -> bool {
        !self.running && self.outcome is None
    }

    /// Per-case well-formedness.
    pub open spec fn wf(self) -> bool {
        &&& self.retry_budget < usize::MAX
        &&& self.attempts@.len() <= self.retry_budget + 1
        &&& !(self.running && self.outcome is Some)
        &&& forall|j: int|
            0 <= j && j + 1 < self.attempts@.len() ==> !(#[trigger] self.attempts@[j]).spec_is_success()
        &&& self.running ==> self.attempts@.len() <= self.retry_budget && (forall|j: int|
            0 <= j < self.attempts@.len() ==> !(#[trigger] self.attempts@[j]).spec_is_success())
        &&& self.is_pending() ==> self.attempts@.len() <= self.retry_budget && (forall|j: int|
            0 <= j < self.attempts@.len() ==> !(#[trigger] self.attempts@[j]).spec_is_success())
        &&& self.skipped ==> self.outcome == Some(TestCaseOutcome::Skipped)
            && self.attempts@.len() == 0 && !self.running
        &&& self.outcome matches Some(o) ==> self.skipped || (self.attempts@.len() >= 1 && o
            == spec_outcome_of(self.attempts@))
    }
}

/// How many cases have an attempt in flight.
pub open spec fn running_count(cases: Seq<TestCaseState>) -> nat
    decreases cases.len(),
{
    if cases.len() == 0 {
        0
    } else {
        running_count(cases.drop_last()) + (if cases.last().running {
            1nat
        } else {
            0nat
        })
    }
}

/// How many cases are finalized.
pub open spec fn finalized_count(cases: Seq<TestCaseState>) -> nat
    decreases cases.len(),
{
    if cases.len() == 0 {
        0
    } else {
        finalized_count(cases.drop_last()) + (if cases.last().outcome is Some {
            1nat
        } else {
            0nat
        })
    }
}

proof fn lemma_running_count_push(cases: Seq<TestCaseState>, c: TestCaseState)
    ensures
        running_count(cases.push(c)) == running_count(cases) + (if c.running {
            1nat
        } else {
            0nat
        }),
{
    assert(cases.push(c).drop_last() =~= cases);
}

/// The running count is determined index-by-index: two case sequences that
/// agree on every `running` flag have the same count.
proof fn lemma_running_count_congruent(a: Seq<TestCaseState>, b: Seq<TestCaseState>)
    requires
        a.len() == b.len(),
        forall|i: int| 0 <= i < a.len() ==> a[i].running == b[i].running,
    ensures
        running_count(a) == running_count(b),
    decreases a.len(),
{
    if a.len() > 0 {
        lemma_running_count_congruent(a.drop_last(), b.drop_last());
    }
}

/// An update that flips one case's `running` flag moves the count by one.
proof fn lemma_running_count_update(cases: Seq<TestCaseState>, i: int, c: TestCaseState)
    requires
        0 <= i < cases.len(),
    ensures
        c.running && !cases[i].running ==> running_count(cases.update(i, c)) == running_count(
            cases,
        ) + 1,
        !c.running && cases[i].running ==> running_count(cases.update(i, c)) + 1 == running_count(
            cases,
        ),
        c.running == cases[i].running ==> running_count(cases.update(i, c)) == running_count(
            cases,
        ),
    decreases cases.len(),
{
    if cases.len() > 0 {
        if i == cases.len() - 1 {
            lemma_running_count_congruent(cases.update(i, c).drop_last(), cases.drop_last());
            assert(cases.update(i, c).last() == c);
        } else {
            lemma_running_count_update(cases.drop_last(), i, c);
            assert(cases.update(i, c).drop_last() =~= cases.drop_last().update(i, c));
            assert(cases.update(i, c).last() == cases.last());
        }
    }
}

/// Whether any case is still pending.
pub open spec fn has_pending(cases: Seq<TestCaseState>) -> bool {
    exists|i: int| 0 <= i < cases.len() && (#[trigger] cases[i]).is_pending()
}

/// Whether every case is finalized.
pub open spec fn all_finalized(cases: Seq<TestCaseState>) -> bool {
    forall|i: int| 0 <= i < cases.len() ==> (#[trigger] cases[i]).outcome is Some
}

/// The scheduler state machine.
pub struct TestRunner {
    /// Per-case state, indexed by the case's position in the run's test list.
    pub cases: Vec<TestCaseState>,
    /// The maximum number of attempts in flight at once.
    pub concurrency_limit: usize,
    /// How many attempts are in flight.
    pub running: usize,
    /// The ordered event stream, append only.
    pub events: Vec<RunEvent>,
    /// Whether a stop was requested: no new attempts are handed out.
    pub stopped: bool,
    /// Whether the run-finished event has been emitted.
    pub finished: bool,
}

impl TestRunner {
    /// Well-formedness: the hard invariants of a run.
    pub open spec fn wf(self) -> bool {
        &&& self.concurrency_limit >= 1
        &&& forall|i: int| 0 <= i < self.cases@.len() ==> (#[trigger] self.cases@[i]).wf()
        &&& self.running == running_count(self.cases@)
        &&& self.running <= self.concurrency_limit
        &&& forall|t: int|
            0 <= t < self.cases@.len() ==> count_finalized(self.events@, t) == (
            if (#[trigger] self.cases@[t]).outcome is Some {
                1nat
            } else {
                0nat
            })
        &&& forall|t: int|
            0 <= t < self.cases@.len() ==> count_started(self.events@, t) == (
            #[trigger] self.cases@[t]).attempts@.len() + (if self.cases@[t].running {
                1nat
            } else {
                0nat
            })
        &&& forall|t: int|
            0 <= t < self.cases@.len() ==> count_finished(self.events@, t) == (
            #[trigger] self.cases@[t]).attempts@.len()
        &&& count_run_finished(self.events@) == (if self.finished {
            1nat
        } else {
            0nat
        })
        &&& self.finished ==> self.running == 0 && (self.stopped || all_finalized(self.cases@))
        &&& self.finished ==> self.events@.len() > 0 && self.events@.last() is RunFinished
        &&& forall|p: int, q: int, t: int|
            #![trigger is_finalized_for(self.events@[p], t), is_started_for(self.events@[q], t)]
            #![trigger is_finalized_for(self.events@[p], t), is_finished_for(self.events@[q], t)]
            (0 <= p < q < self.events@.len() && 0 <= t < self.cases@.len() && is_finalized_for(
                self.events@[p],
                t,
            )) ==> !is_started_for(self.events@[q], t) && !is_finished_for(self.events@[q], t)
    }

    /// Builds the runner for a planned list of cases.  Cases that are ignored
    /// and not requested under `run_ignored` are finalized as `Skipped` at
    /// once, with their finalized event emitted; nothing else has happened.
    pub fn new(
        planned: &Vec<PlannedTest>,
        run_ignored: RunIgnored,
        concurrency_limit: usize,
        timestamp: u64,
    ) -> (r: TestRunner)
        requires
            concurrency_limit >= 1,
            forall|i: int|
                0 <= i < planned@.len() ==> (#[trigger] planned@[i]).retry_budget < usize::MAX,
        ensures
            r.wf(),
            r.cases@.len() == planned@.len(),
            forall|i: int|
                0 <= i < planned@.len() ==> {
                    let c = #[trigger] r.cases@[i];
                    &&& c.skipped == !run_ignored.spec_runs(planned@[i].ignored)
                    &&& c.retry_budget == planned@[i].retry_budget
                    &&& c.attempts@.len() == 0
                    &&& !c.running
                    &&& c.outcome == (if c.skipped {
                        Some(TestCaseOutcome::Skipped)
                    } else {
                        None::<TestCaseOutcome>
                    })
                },
            !r.stopped,
            !r.finished,
            r.running == 0,
            r.concurrency_limit == concurrency_limit,
    {
        let mut cases: Vec<TestCaseState> = Vec::new();
        let mut events: Vec<RunEvent> = Vec::new();
        let ghost ev0 = events@;
        events.push(RunEvent::ListBuilt { timestamp, test_count: planned.len() });
        proof {
            assert forall|t: int| true implies count_started(events@, t) == 0 && count_finished(
                events@,
                t,
            ) == 0 && count_finalized(events@, t) == 0 by {
                lemma_counts_push(ev0, RunEvent::ListBuilt { timestamp, test_count: planned@.len() as usize }, t);
            }
            lemma_counts_push(ev0, RunEvent::ListBuilt { timestamp, test_count: planned@.len() as usize }, 0);
        }
        let mut i: usize = 0;
        while i < planned.len()
            invariant
                i <= planned@.len(),
                cases@.len() == i,
                forall|k: int|
                    0 <= k < i ==> {
                        let c = #[trigger] cases@[k];
                        &&& c.skipped == !run_ignored.spec_runs(planned@[k].ignored)
                        &&& c.retry_budget == planned@[k].retry_budget
                        &&& c.attempts@.len() == 0
                        &&& !c.running
                        &&& c.outcome == (if c.skipped {
                            Some(TestCaseOutcome::Skipped)
                        } else {
                            None::<TestCaseOutcome>
                        })
                        &&& c.wf()
                    },
                forall|k: int|
                    0 <= k < planned@.len() ==> (#[trigger] planned@[k]).retry_budget < usize::MAX,
                running_count(cases@) == 0,
                forall|t: int| #![auto]
                    0 <= t < i ==> count_finalized(events@, t) == (if cases@[t].outcome is Some {
                        1nat
                    } else {
                        0nat
                    }),
                forall|t: int| count_started(events@, t) == 0 && count_finished(events@, t) == 0,
                forall|t: int| i <= t ==> count_finalized(events@, t) == 0,
                count_run_finished(events@) == 0,
                forall|q: int|
                    0 <= q < events@.len() ==> !((#[trigger] events@[q]) is AttemptStarted) && !(
                    events@[q] is AttemptFinished),
            decreases planned@.len() - i,
    {
            let skip = !run_ignored.runs(planned[i].ignored);
            let c = TestCaseState {
                skipped: skip,
                retry_budget: planned[i].retry_budget,
                attempts: Vec::new(),
                running: false,
                outcome: if skip {
                    Some(TestCaseOutcome::Skipped)
                } else {
                    None
                },
            };
            proof {
                lemma_running_count_push(cases@, c);
            }
            cases.push(c);
            if skip {
                let e = RunEvent::TestFinalized {
                    timestamp,
                    test: i,
                    outcome: TestCaseOutcome::Skipped,
                };
                let ghost ev1 = events@;
                events.push(e);
                proof {
                    assert forall|t: int| true implies count_started(events@, t) == 0
                        && count_finished(events@, t) == 0 && count_finalized(events@, t) == (
                    if t == i {
                        1nat
                    } else {
                        count_finalized(ev1, t)
                    }) by {
                        lemma_counts_push(ev1, e, t);
                    }
                    lemma_counts_push(ev1, e, 0);
                }
            }
            i += 1;
        }
        let r = TestRunner {
            cases,
            concurrency_limit,
            running: 0,
            events,
            stopped: false,
            finished: false,
        };
        proof {
            assert forall|p: int, q: int, t: int|
                (0 <= p < q < r.events@.len() && 0 <= t < r.cases@.len() && is_finalized_for(
                    r.events@[p],
                    t,
                )) implies !is_started_for(r.events@[q], t) && !is_finished_for(
                r.events@[q],
                t,
            ) by {
                assert(!(r.events@[q] is AttemptStarted) && !(r.events@[q] is AttemptFinished));
            }
            assert(r.wf());
        }
        r
    }

    /// Hands out the next attempt to launch, if a stop has not been requested,
    /// a concurrency slot is free, and some case is pending.  The chosen case
    /// is the lowest-indexed pending one; the returned pair is its index and
    /// the 1-based attempt number.  An attempt-started event is emitted before
    /// any output exists.  Returns `None`, changing nothing, when nothing can
    /// be started.
    pub fn start_next(&mut self, timestamp: u64) -> (r: Option<(usize, usize)>)
        requires
            old(self).wf(),
            !old(self).finished,
        ensures
            final(self).wf(),
            !final(self).finished,
            final(self).concurrency_limit == old(self).concurrency_limit,
            final(self).stopped == old(self).stopped,
            match r {
                None => final(self).cases@ == old(self).cases@ && final(self).events@ == old(
                    self,
                ).events@ && final(self).running == old(self).running && (old(self).stopped || old(
                    self,
                ).running == old(self).concurrency_limit || !has_pending(old(self).cases@)),
                Some((i, a)) => {
                    &&& !old(self).stopped
                    &&& old(self).running < old(self).concurrency_limit
                    &&& i < old(self).cases@.len()
                    &&& old(self).cases@[i as int].is_pending()
                    &&& forall|j: int|
                        0 <= j < i ==> !(#[trigger] old(self).cases@[j]).is_pending()
                    &&& a == old(self).cases@[i as int].attempts@.len() + 1
                    &&& final(self).cases@.len() == old(self).cases@.len()
                    &&& forall|j: int|
                        0 <= j < old(self).cases@.len() && j != i ==> final(self).cases@[j] == old(
                            self,
                        ).cases@[j]
                    &&& final(self).cases@[i as int].running
                    &&& final(self).cases@[i as int].outcome is None
                    &&& final(self).cases@[i as int].attempts@ == old(
                        self,
                    ).cases@[i as int].attempts@
                    &&& final(self).cases@[i as int].skipped == old(self).cases@[i as int].skipped
                    &&& final(self).cases@[i as int].retry_budget == old(
                        self,
                    ).cases@[i as int].retry_budget
                    &&& final(self).running == old(self).running + 1
                    &&& final(self).events@ == old(self).events@.push(
                        RunEvent::AttemptStarted { timestamp, test: i, attempt: a },
                    )
                },
            },
    {
        if self.stopped || self.running == self.concurrency_limit {
            return None;
        }
        let mut i: usize = 0;
        while i < self.cases.len()
            invariant
                old(self).wf(),
                !old(self).stopped,
                old(self).running < old(self).concurrency_limit,
                self.cases@ == old(self).cases@,
                self.running == old(self).running,
                self.events@ == old(self).events@,
                self.stopped == old(self).stopped,
                self.finished == old(self).finished,
                self.concurrency_limit == old(self).concurrency_limit,
                i <= self.cases@.len(),
                forall|j: int| 0 <= j < i ==> !(#[trigger] self.cases@[j]).is_pending(),
            decreases self.cases@.len() - i,
        {
            let pending = !self.cases[i].running && self.cases[i].outcome.is_none();
            if pending {
                let a = self.cases[i].attempts.len() + 1;
                let ghost cs0 = self.cases@;
                let case = &mut self.cases[i];
                case.running = true;
                proof {
                    lemma_running_count_update(cs0, i as int, *final(case));
                }
                self.running = self.running + 1;
                let e = RunEvent::AttemptStarted { timestamp, test: i, attempt: a };
                let ghost ev0 = self.events@;
                self.events.push(e);
                proof {
                    assert(self.cases@ =~= cs0.update(i as int, self.cases@[i as int]));
                    assert forall|t: int| 0 <= t < self.cases@.len() implies count_started(
                        self.events@,
                        t,
                    ) == (#[trigger] self.cases@[t]).attempts@.len() + (if self.cases@[t].running {
                        1nat
                    } else {
                        0nat
                    }) && count_finished(self.events@, t) == self.cases@[t].attempts@.len()
                        && count_finalized(self.events@, t) == (if self.cases@[t].outcome is Some {
                        1nat
                    } else {
                        0nat
                    }) by {
                        lemma_counts_push(ev0, e, t);
                    }
                    lemma_counts_push(ev0, e, 0);
                    lemma_no_finalized_when_zero(ev0, i as int);
                    assert forall|p: int, q: int, t: int|
                        (0 <= p < q < self.events@.len() && 0 <= t < self.cases@.len()
                            && is_finalized_for(self.events@[p], t)) implies !is_started_for(
                        self.events@[q],
                        t,
                    ) && !is_finished_for(self.events@[q], t) by {
                        assert(self.events@[p] == ev0[p]);
                        if q < ev0.len() {
                            assert(self.events@[q] == ev0[q]);
                            assert(is_finalized_for(ev0[p], t) && !is_started_for(ev0[q], t)
                                && !is_finished_for(ev0[q], t));
                        } else {
                            assert(self.events@[q] == e);
                            assert(t != i ==> !is_started_for(e, t));
                        }
                    }
                }
                return Some((i, a));
            }
            i += 1;
        }
        None
    }

    /// Records that the in-flight attempt of case `test` finished with
    /// `result`.  The case is finalized — and the outcome returned — exactly
    /// when the attempt succeeded, the retry budget is exhausted, or a stop
    /// was requested; otherwise the case returns to the pending queue.  An
    /// attempt-finished event is emitted, followed by the finalized event when
    /// the case is finalized.
    pub fn finish_attempt(
        &mut self,
        test: usize,
        result: ExecutionResult,
        timestamp: u64,
    ) -> (r: Option<TestCaseOutcome>)
        requires
            old(self).wf(),
            !old(self).finished,
            test < old(self).cases@.len(),
            old(self).cases@[test as int].running,
        ensures
            final(self).wf(),
            !final(self).finished,
            final(self).concurrency_limit == old(self).concurrency_limit,
            final(self).stopped == old(self).stopped,
            final(self).running + 1 == old(self).running,
            final(self).cases@.len() == old(self).cases@.len(),
            forall|j: int|
                0 <= j < old(self).cases@.len() && j != test ==> final(self).cases@[j] == old(
                    self,
                ).cases@[j],
            ({
                let oldc = old(self).cases@[test as int];
                let newa = oldc.attempts@.push(result);
                let fin = result.spec_is_success() || newa.len() == oldc.retry_budget + 1 || old(
                    self,
                ).stopped;
                let c = final(self).cases@[test as int];
                &&& c.attempts@ == newa
                &&& c.retry_budget == oldc.retry_budget
                &&& c.skipped == oldc.skipped
                &&& !c.running
                &&& (if fin {
                    c.outcome == Some(spec_outcome_of(newa)) && r == Some(spec_outcome_of(newa))
                        && final(self).events@ == old(self).events@.push(
                        RunEvent::AttemptFinished {
                            timestamp,
                            test,
                            attempt: newa.len() as usize,
                            result,
                        },
                    ).push(
                        RunEvent::TestFinalized {
                            timestamp,
                            test,
                            outcome: spec_outcome_of(newa),
                        },
                    )
                } else {
                    c.outcome is None && r is None && final(self).events@ == old(
                        self,
                    ).events@.push(
                        RunEvent::AttemptFinished {
                            timestamp,
                            test,
                            attempt: newa.len() as usize,
                            result,
                        },
                    )
                })
            }),
    {
        let ghost cs0 = self.cases@;
        let stopped = self.stopped;
        let case = &mut self.cases[test];
        case.attempts.push(result);
        case.running = false;
        let n = case.attempts.len();
        let fin = result.is_success() || n == case.retry_budget + 1 || stopped;
        let mut r: Option<TestCaseOutcome> = None;
        if fin {
            let o = outcome_of(&case.attempts);
            case.outcome = Some(o);
            r = Some(o);
        }
        proof {
            lemma_running_count_update(cs0, test as int, *final(case));
        }
        self.running = self.running - 1;
        let e1 = RunEvent::AttemptFinished { timestamp, test, attempt: n, result };
        let ghost ev0 = self.events@;
        self.events.push(e1);
        proof {
            assert(self.cases@ =~= cs0.update(test as int, self.cases@[test as int]));
        }
        if let Some(o) = r {
            let e2 = RunEvent::TestFinalized { timestamp, test, outcome: o };
            let ghost ev1 = self.events@;
            self.events.push(e2);
            proof {
                assert forall|t: int| 0 <= t < self.cases@.len() implies count_started(
                    self.events@,
                    t,
                ) == (#[trigger] self.cases@[t]).attempts@.len() + (if self.cases@[t].running {
                    1nat
                } else {
                    0nat
                }) && count_finished(self.events@, t) == self.cases@[t].attempts@.len()
                    && count_finalized(self.events@, t) == (if self.cases@[t].outcome is Some {
                    1nat
                } else {
                    0nat
                }) by {
                    lemma_counts_push(ev0, e1, t);
                    lemma_counts_push(ev1, e2, t);
                }
                lemma_counts_push(ev0, e1, 0);
                lemma_counts_push(ev1, e2, 0);
                lemma_no_finalized_when_zero(ev0, test as int);
                assert forall|p: int, q: int, t: int|
                    (0 <= p < q < self.events@.len() && 0 <= t < self.cases@.len()
                        && is_finalized_for(self.events@[p], t)) implies !is_started_for(
                    self.events@[q],
                    t,
                ) && !is_finished_for(self.events@[q], t) by {
                    if p < ev0.len() {
                        assert(self.events@[p] == ev0[p]);
                        if q < ev0.len() {
                            assert(self.events@[q] == ev0[q]);
                            assert(is_finalized_for(ev0[p], t) && !is_started_for(ev0[q], t)
                                && !is_finished_for(ev0[q], t));
                        } else if q == ev0.len() {
                            assert(self.events@[q] == e1);
                            assert(t != test ==> !is_finished_for(e1, t));
                        } else {
                            assert(self.events@[q] == e2);
                        }
                    } else {
                        assert(self.events@[p] == e1 || self.events@[p] == e2);
                        assert(self.events@[q] == e2);
                    }
                }
            }
        } else {
            proof {
                assert forall|t: int| 0 <= t < self.cases@.len() implies count_started(
                    self.events@,
                    t,
                ) == (#[trigger] self.cases@[t]).attempts@.len() + (if self.cases@[t].running {
                    1nat
                } else {
                    0nat
                }) && count_finished(self.events@, t) == self.cases@[t].attempts@.len()
                    && count_finalized(self.events@, t) == (if self.cases@[t].outcome is Some {
                    1nat
                } else {
                    0nat
                }) by {
                    lemma_counts_push(ev0, e1, t);
                }
                lemma_counts_push(ev0, e1, 0);
                lemma_no_finalized_when_zero(ev0, test as int);
                assert forall|p: int, q: int, t: int|
                    (0 <= p < q < self.events@.len() && 0 <= t < self.cases@.len()
                        && is_finalized_for(self.events@[p], t)) implies !is_started_for(
                    self.events@[q],
                    t,
                ) && !is_finished_for(self.events@[q], t) by {
                    assert(self.events@[p] == ev0[p]);
                    if q < ev0.len() {
                        assert(self.events@[q] == ev0[q]);
                        assert(is_finalized_for(ev0[p], t) && !is_started_for(ev0[q], t)
                            && !is_finished_for(ev0[q], t));
                    } else {
                        assert(self.events@[q] == e1);
                        assert(t != test ==> !is_finished_for(e1, t));
                    }
                }
            }
        }
        r
    }

    /// Requests a stop: no further attempts are handed out; in-flight attempts
    /// run to completion and their cases are finalized with the attempts made
    /// so far.  Idempotent: repeated calls leave the state unchanged.
    pub fn cancel(&mut self)
        requires
            old(self).wf(),
        ensures
            final(self).wf(),
            final(self).stopped,
            final(self).cases@ == old(self).cases@,
            final(self).events@ == old(self).events@,
            final(self).running == old(self).running,
            final(self).concurrency_limit == old(self).concurrency_limit,
            final(self).finished == old(self).finished,
    {
        self.stopped = true;
    }

    /// Emits the run-level finished event: allowed only once, after every
    /// in-flight attempt has been recorded and — unless a stop was requested —
    /// every case is finalized.  The event counts the finalized cases and the
    /// cases that never got a chance to run.
    pub fn finish_run(&mut self, timestamp: u64)
        requires
            old(self).wf(),
            !old(self).finished,
            old(self).running == 0,
            old(self).stopped || all_finalized(old(self).cases@),
        ensures
            final(self).wf(),
            final(self).finished,
            final(self).cases@ == old(self).cases@,
            final(self).stopped == old(self).stopped,
            final(self).events@ == old(self).events@.push(
                RunEvent::RunFinished {
                    timestamp,
                    finalized: finalized_count(old(self).cases@) as usize,
                    not_run: (old(self).cases@.len() - finalized_count(old(self).cases@)) as usize,
                },
            ),
    {
        proof {
            lemma_finalized_count_le_len(self.cases@);
        }
        let mut fz: usize = 0;
        let mut i: usize = 0;
        while i < self.cases.len()
            invariant
                i <= self.cases@.len(),
                fz == finalized_count(self.cases@.take(i as int)),
                fz <= i,
            decreases self.cases@.len() - i,
        {
            proof {
                assert(self.cases@.take(i + 1).drop_last() =~= self.cases@.take(i as int));
                assert(self.cases@.take(i + 1).last() == self.cases@[i as int]);
            }
            if self.cases[i].outcome.is_some() {
                fz = fz + 1;
            }
            i += 1;
        }
        proof {
            assert(self.cases@.take(self.cases@.len() as int) =~= self.cases@);
        }
        let not_run = self.cases.len() - fz;
        let e = RunEvent::RunFinished { timestamp, finalized: fz, not_run };
        let ghost ev0 = self.events@;
        self.events.push(e);
        self.finished = true;
        proof {
            assert forall|t: int| 0 <= t < self.cases@.len() implies count_started(self.events@, t)
                == (#[trigger] self.cases@[t]).attempts@.len() + (if self.cases@[t].running {
                1nat
            } else {
                0nat
            }) && count_finished(self.events@, t) == self.cases@[t].attempts@.len()
                && count_finalized(self.events@, t) == (if self.cases@[t].outcome is Some {
                1nat
            } else {
                0nat
            }) by {
                lemma_counts_push(ev0, e, t);
            }
            lemma_counts_push(ev0, e, 0);
            assert forall|p: int, q: int, t: int|
                (0 <= p < q < self.events@.len() && 0 <= t < self.cases@.len()
                    && is_finalized_for(self.events@[p], t)) implies !is_started_for(
                self.events@[q],
                t,
            ) && !is_finished_for(self.events@[q], t) by {
                assert(self.events@[p] == ev0[p]);
                if q < ev0.len() {
                    assert(self.events@[q] == ev0[q]);
                    assert(is_finalized_for(ev0[p], t) && !is_started_for(ev0[q], t)
                        && !is_finished_for(ev0[q], t));
                } else {
                    assert(self.events@[q] == e);
                }
            }
        }
    }

    /// Whether the run-finished event has been emitted.
    pub fn is_finished(&self) -> (r: bool)
        ensures
            r == self.finished,
    {
        self.finished
    }

    /// Whether a stop has been requested.
    pub fn is_stopped(&self) -> (r: bool)
        ensures
            r == self.stopped,
    {
        self.stopped
    }

    /// How many attempts are in flight.
    pub fn running_now(&self) -> (r: usize)
        ensures
            r == self.running,
    {
        self.running
    }
}

/// At-most-one finalization: in a well-formed run, at most one finalized
/// event is ever emitted per test case; when the run has finished without a
/// stop request, exactly one.
pub proof fn lemma_at_most_one_finalization(r: TestRunner, t: int)
    requires
        r.wf(),
        0 <= t < r.cases@.len(),
    ensures
        count_finalized(r.events@, t) <= 1,
        r.finished && !r.stopped ==> count_finalized(r.events@, t) == 1,
{
    let c = r.cases@[t];
    assert(count_finalized(r.events@, t) == (if c.outcome is Some {
        1nat
    } else {
        0nat
    }));
}

/// Retry bound: a case with retry budget `b` has at most `b + 1`
/// attempt-started events, and scheduling stops at the first success: no
/// recorded attempt before the last one succeeded.
pub proof fn lemma_retry_bound(r: TestRunner, t: int)
    requires
        r.wf(),
        0 <= t < r.cases@.len(),
    ensures
        count_started(r.events@, t) <= r.cases@[t].retry_budget + 1,
        forall|j: int|
            0 <= j && j + 1 < r.cases@[t].attempts@.len() ==> !(
            #[trigger] r.cases@[t].attempts@[j]).spec_is_success(),
{
}

/// Concurrency bound: at most `concurrency_limit` cases are in the
/// started-but-not-finished state, and the event stream shows exactly the
/// in-flight cases as having one more started than finished event.
pub proof fn lemma_concurrency_bound(r: TestRunner)
    requires
        r.wf(),
    ensures
        running_count(r.cases@) <= r.concurrency_limit,
        forall|t: int|
            0 <= t < r.cases@.len() ==> count_started(r.events@, t) == count_finished(r.events@, t)
                + (if (#[trigger] r.cases@[t]).running {
                1nat
            } else {
                0nat
            }),
{
}

/// Ignored tests never execute: a skipped case has no attempt-started event,
/// its outcome is `Skipped`, and its one finalized event has been emitted.
pub proof fn lemma_skipped_never_started(r: TestRunner, t: int)
    requires
        r.wf(),
        0 <= t < r.cases@.len(),
        r.cases@[t].skipped,
    ensures
        count_started(r.events@, t) == 0,
        r.cases@[t].outcome == Some(TestCaseOutcome::Skipped),
        count_finalized(r.events@, t) == 1,
{
}

/// Outcome classification: a finalized case whose only success is not the
/// first attempt is `Flaky`, never `Passed`; a first-attempt success is
/// `Passed`; with no success at all the terminal attempt decides between
/// `TimedOut`, `ExecutionFailed` and `Failed`.
pub proof fn lemma_outcome_classification(r: TestRunner, t: int)
    requires
        r.wf(),
        0 <= t < r.cases@.len(),
        !r.cases@[t].skipped,
        r.cases@[t].outcome is Some,
    ensures
        ({
            let c = r.cases@[t];
            let a = c.attempts@;
            let o = c.outcome->0;
            &&& ((exists|j: int| 0 <= j < a.len() && (#[trigger] a[j]).spec_is_success())
                && !a[0].spec_is_success()) ==> o == TestCaseOutcome::Flaky
            &&& a[0].spec_is_success() ==> o == TestCaseOutcome::Passed && a.len() == 1
            &&& ((forall|j: int| 0 <= j < a.len() ==> !(#[trigger] a[j]).spec_is_success())
                && a.last() is Timeout) ==> o == TestCaseOutcome::TimedOut
            &&& ((forall|j: int| 0 <= j < a.len() ==> !(#[trigger] a[j]).spec_is_success())
                && a.last() is ExecFail) ==> o == TestCaseOutcome::ExecutionFailed
            &&& ((forall|j: int| 0 <= j < a.len() ==> !(#[trigger] a[j]).spec_is_success())
                && !(a.last() is Timeout) && !(a.last() is ExecFail)) ==> o
                == TestCaseOutcome::Failed
        }),
{
    let c = r.cases@[t];
    let a = c.attempts@;
    if exists|j: int| 0 <= j < a.len() && (#[trigger] a[j]).spec_is_success() {
        let j = choose|j: int| 0 <= j < a.len() && (#[trigger] a[j]).spec_is_success();
        assert(j == a.len() - 1);
    }
}

/// Event ordering per case: the finalized event of a case comes after every
/// attempt-started and attempt-finished event of that case, so a consumer of
/// the stream never observes the finalized event first.
pub proof fn lemma_finalized_after_attempt_events(r: TestRunner, p: int, q: int, t: int)
    requires
        r.wf(),
        0 <= t < r.cases@.len(),
        0 <= p < r.events@.len(),
        0 <= q < r.events@.len(),
        is_finalized_for(r.events@[p], t),
        is_started_for(r.events@[q], t) || is_finished_for(r.events@[q], t),
    ensures
        q < p,
{
    if q > p {
        assert(!is_started_for(r.events@[q], t) && !is_finished_for(r.events@[q], t));
    }
}

/// Event ordering at run level: a run-finished event stands only at the very
/// end of the stream, and only once the run is finished, so a consumer never
/// observes it before any finalized event.
pub proof fn lemma_run_finished_event_is_last(r: TestRunner, p: int)
    requires
        r.wf(),
        0 <= p < r.events@.len(),
        r.events@[p] is RunFinished,
    ensures
        r.finished,
        p == r.events@.len() - 1,
{
    lemma_run_finished_at(r.events@, p);
    if p < r.events@.len() - 1 {
        lemma_two_run_finished(r.events@, p, r.events@.len() - 1);
    }
}

proof fn lemma_finalized_count_le_len(cases: Seq<TestCaseState>)
    ensures
        finalized_count(cases) <= cases.len(),
    decreases cases.len(),
{
    if cases.len() > 0 {
        lemma_finalized_count_le_len(cases.drop_last());
    }
}

} // verus!
