use nextest_runner::runner::{
    outcome_of, ExecutionResult, PlannedTest, RunEvent, TestCaseOutcome, TestRunner,
};
use nextest_runner::target_runner::{
    resolve_target_runner, EnvVar, RunnerConfigEntry, split_whitespace_words,
};
use nextest_runner::test_filter::RunIgnored;
use nextest_runner::errors::TargetRunnerError;

fn plain(n: usize, retry_budget: usize) -> Vec<PlannedTest> {
    let mut v = Vec::new();
    for _ in 0..n {
        v.push(PlannedTest {
            ignored: false,
            retry_budget,
        });
    }
    v
}

fn count_started(events: &[RunEvent]) -> usize {
    events
        .iter()
        .filter(|e| matches!(e, RunEvent::AttemptStarted { .. }))
        .count()
}

fn count_finalized_for(events: &[RunEvent], t: usize) -> usize {
    events
        .iter()
        .filter(|e| matches!(e, RunEvent::TestFinalized { test, .. } if *test == t))
        .count()
}

#[test]
fn four_tests_limit_two_one_flaky() {
    // Four cases, concurrency limit 2, retry budget 1; case 2 fails once and
    // then passes.
    let mut r = TestRunner::new(&plain(4, 1), RunIgnored::Default, 2, 0);

    let (a, n1) = r.start_next(1).unwrap();
    assert_eq!((a, n1), (0, 1));
    let (b, n2) = r.start_next(2).unwrap();
    assert_eq!((b, n2), (1, 1));
    // Both slots busy: nothing more starts.
    assert!(r.start_next(3).is_none());

    assert_eq!(
        r.finish_attempt(0, ExecutionResult::Pass, 4),
        Some(TestCaseOutcome::Passed)
    );
    let (c, _) = r.start_next(5).unwrap();
    assert_eq!(c, 2);
    assert_eq!(
        r.finish_attempt(1, ExecutionResult::Pass, 6),
        Some(TestCaseOutcome::Passed)
    );
    let (d, _) = r.start_next(7).unwrap();
    assert_eq!(d, 3);
    // First attempt of case 2 fails; budget remains, so it is retried.
    assert_eq!(r.finish_attempt(2, ExecutionResult::Fail, 8), None);
    let (c2, attempt) = r.start_next(9).unwrap();
    assert_eq!((c2, attempt), (2, 2));
    assert_eq!(
        r.finish_attempt(3, ExecutionResult::Pass, 10),
        Some(TestCaseOutcome::Passed)
    );
    assert_eq!(
        r.finish_attempt(2, ExecutionResult::Pass, 11),
        Some(TestCaseOutcome::Flaky)
    );
    assert!(r.start_next(12).is_none());
    r.finish_run(13);

    assert_eq!(count_started(&r.events), 5);
    let finished = r
        .events
        .iter()
        .filter(|e| matches!(e, RunEvent::RunFinished { .. }))
        .count();
    assert_eq!(finished, 1);
    for t in 0..4 {
        assert_eq!(count_finalized_for(&r.events, t), 1);
    }
    assert!(matches!(
        r.events.last(),
        Some(RunEvent::RunFinished {
            finalized: 4,
            not_run: 0,
            ..
        })
    ));
}

#[test]
fn list_built_event_comes_first() {
    let r = TestRunner::new(&plain(2, 0), RunIgnored::Default, 1, 7);
    assert!(matches!(
        r.events.first(),
        Some(RunEvent::ListBuilt {
            timestamp: 7,
            test_count: 2,
        })
    ));
}

#[test]
fn retry_budget_exhaustion_classifies_by_terminal_attempt() {
    let mut r = TestRunner::new(&plain(1, 2), RunIgnored::Default, 1, 0);
    let _ = r.start_next(1).unwrap();
    assert_eq!(r.finish_attempt(0, ExecutionResult::Fail, 2), None);
    let _ = r.start_next(3).unwrap();
    assert_eq!(r.finish_attempt(0, ExecutionResult::Fail, 4), None);
    let (_, attempt) = r.start_next(5).unwrap();
    assert_eq!(attempt, 3);
    // Third attempt exhausts the budget; terminal timeout decides.
    assert_eq!(
        r.finish_attempt(0, ExecutionResult::Timeout, 6),
        Some(TestCaseOutcome::TimedOut)
    );
    assert!(r.start_next(7).is_none());
    assert_eq!(count_started(&r.events), 3);
}

#[test]
fn terminal_exec_failure_is_execution_failed() {
    let mut r = TestRunner::new(&plain(1, 0), RunIgnored::Default, 1, 0);
    let _ = r.start_next(1).unwrap();
    assert_eq!(
        r.finish_attempt(0, ExecutionResult::ExecFail, 2),
        Some(TestCaseOutcome::ExecutionFailed)
    );
    let mut r = TestRunner::new(&plain(1, 0), RunIgnored::Default, 1, 0);
    let _ = r.start_next(1).unwrap();
    assert_eq!(
        r.finish_attempt(0, ExecutionResult::Fail, 2),
        Some(TestCaseOutcome::Failed)
    );
}

#[test]
fn leaked_process_counts_as_success() {
    let mut r = TestRunner::new(&plain(1, 1), RunIgnored::Default, 1, 0);
    let _ = r.start_next(1).unwrap();
    assert_eq!(
        r.finish_attempt(0, ExecutionResult::Leak, 2),
        Some(TestCaseOutcome::Passed)
    );
}

#[test]
fn ignored_tests_are_skipped_without_attempts() {
    let planned = vec![
        PlannedTest {
            ignored: true,
            retry_budget: 1,
        },
        PlannedTest {
            ignored: false,
            retry_budget: 1,
        },
    ];
    let mut r = TestRunner::new(&planned, RunIgnored::Default, 2, 0);
    // The ignored case is finalized at construction.
    assert_eq!(count_finalized_for(&r.events, 0), 1);
    assert!(matches!(
        r.events[1],
        RunEvent::TestFinalized {
            test: 0,
            outcome: TestCaseOutcome::Skipped,
            ..
        }
    ));
    let (i, _) = r.start_next(1).unwrap();
    assert_eq!(i, 1);
    r.finish_attempt(1, ExecutionResult::Pass, 2);
    r.finish_run(3);
    // No attempt of the ignored case was ever started.
    let started_ignored = r
        .events
        .iter()
        .filter(|e| matches!(e, RunEvent::AttemptStarted { test: 0, .. }))
        .count();
    assert_eq!(started_ignored, 0);
}

#[test]
fn ignored_only_mode_runs_only_ignored_tests() {
    let planned = vec![
        PlannedTest {
            ignored: true,
            retry_budget: 0,
        },
        PlannedTest {
            ignored: false,
            retry_budget: 0,
        },
    ];
    let mut r = TestRunner::new(&planned, RunIgnored::IgnoredOnly, 1, 0);
    let (i, _) = r.start_next(1).unwrap();
    assert_eq!(i, 0);
    assert_eq!(count_finalized_for(&r.events, 1), 1);
}

#[test]
fn cancel_stops_new_attempts_and_is_idempotent() {
    let mut r = TestRunner::new(&plain(3, 1), RunIgnored::Default, 2, 0);
    let _ = r.start_next(1).unwrap();
    r.cancel();
    r.cancel();
    assert!(r.start_next(2).is_none());
    // The in-flight attempt runs to completion and finalizes with what it has.
    assert_eq!(
        r.finish_attempt(0, ExecutionResult::Fail, 3),
        Some(TestCaseOutcome::Failed)
    );
    r.finish_run(4);
    assert!(matches!(
        r.events.last(),
        Some(RunEvent::RunFinished {
            finalized: 1,
            not_run: 2,
            ..
        })
    ));
}

#[test]
fn concurrency_limit_is_respected() {
    let mut r = TestRunner::new(&plain(5, 0), RunIgnored::Default, 3, 0);
    assert!(r.start_next(1).is_some());
    assert!(r.start_next(2).is_some());
    assert!(r.start_next(3).is_some());
    assert_eq!(r.running_now(), 3);
    assert!(r.start_next(4).is_none());
    r.finish_attempt(0, ExecutionResult::Pass, 5);
    assert_eq!(r.running_now(), 2);
    assert!(r.start_next(6).is_some());
    assert_eq!(r.running_now(), 3);
}

#[test]
fn outcome_of_matches_attempt_history() {
    assert_eq!(
        outcome_of(&vec![ExecutionResult::Pass]),
        TestCaseOutcome::Passed
    );
    assert_eq!(
        outcome_of(&vec![ExecutionResult::Fail, ExecutionResult::Pass]),
        TestCaseOutcome::Flaky
    );
    assert_eq!(
        outcome_of(&vec![ExecutionResult::Fail, ExecutionResult::Timeout]),
        TestCaseOutcome::TimedOut
    );
    assert_eq!(
        outcome_of(&vec![ExecutionResult::Timeout, ExecutionResult::Fail]),
        TestCaseOutcome::Failed
    );
}

fn env(key: &str, value: &str) -> EnvVar {
    EnvVar {
        key: key.to_owned(),
        value: value.to_owned(),
    }
}

fn cfg(triple: &str, runner: &str) -> RunnerConfigEntry {
    RunnerConfigEntry {
        triple: triple.to_owned(),
        runner: runner.to_owned(),
    }
}

#[test]
fn env_override_beats_config_entry() {
    let triple = "aarch64-unknown-linux-gnu";
    let envs = vec![env(
        "CARGO_TARGET_AARCH64_UNKNOWN_LINUX_GNU_RUNNER",
        "qemu-aarch64 -cpu max",
    )];
    let config = vec![cfg(triple, "config-runner --flag")];
    let runner = resolve_target_runner(triple, &envs, &config)
        .unwrap()
        .unwrap();
    assert_eq!(runner.binary, "qemu-aarch64");
    assert_eq!(runner.args, vec!["-cpu".to_owned(), "max".to_owned()]);
}

#[test]
fn config_entry_applies_when_no_env_override() {
    let triple = "aarch64-unknown-linux-gnu";
    let envs = vec![env("CARGO_TARGET_OTHER_TRIPLE_RUNNER", "wrong")];
    let config = vec![cfg(triple, "config-runner --flag")];
    let runner = resolve_target_runner(triple, &envs, &config)
        .unwrap()
        .unwrap();
    assert_eq!(runner.binary, "config-runner");
    assert_eq!(runner.args, vec!["--flag".to_owned()]);
}

#[test]
fn no_match_anywhere_is_direct_invocation() {
    let r = resolve_target_runner("x86_64-unknown-linux-gnu", &vec![], &vec![]).unwrap();
    assert!(r.is_none());
}

#[test]
fn empty_runner_value_is_an_error_not_direct() {
    let triple = "aarch64-unknown-linux-gnu";
    let envs = vec![env("CARGO_TARGET_AARCH64_UNKNOWN_LINUX_GNU_RUNNER", "   ")];
    let err = resolve_target_runner(triple, &envs, &vec![]).unwrap_err();
    match err {
        TargetRunnerError::BinaryNotSpecified { key, value } => {
            assert_eq!(key, "CARGO_TARGET_AARCH64_UNKNOWN_LINUX_GNU_RUNNER");
            assert_eq!(value, "   ");
        }
        _ => panic!("expected a binary-not-specified error"),
    }
    let config = vec![cfg(triple, "")];
    let err = resolve_target_runner(triple, &vec![], &config).unwrap_err();
    match err {
        TargetRunnerError::BinaryNotSpecified { key, .. } => {
            assert_eq!(key, "target.aarch64-unknown-linux-gnu.runner");
        }
        _ => panic!("expected a binary-not-specified error"),
    }
}

#[test]
fn split_words_drops_extra_spaces() {
    assert_eq!(
        split_whitespace_words("  a  bb c "),
        vec!["a".to_owned(), "bb".to_owned(), "c".to_owned()]
    );
    assert_eq!(split_whitespace_words(""), Vec::<String>::new());
    assert_eq!(split_whitespace_words("   "), Vec::<String>::new());
}
