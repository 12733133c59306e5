use example_runner::aggregator::{summarize, BatchSummary};
use example_runner::archive::{archive_path, log_file_name, staging_path};
use example_runner::build_phase::{build_command_args, BuildPhase};
use example_runner::config::effective_parallelism;
use example_runner::descriptor::{BuildMode, TestDescriptor};
use example_runner::errors::{error_is_fatal, ErrorKind};
use example_runner::lifecycle::{outcome_for_spawn_failure, RunOutcome};
use example_runner::scheduler::SchedulerState;

fn desc(name: &str, mode: BuildMode) -> TestDescriptor {
    TestDescriptor { name: String::from(name), mode }
}

fn outcome(name: &str, passed: bool, duration_ms: u64) -> RunOutcome {
    RunOutcome {
        descriptor: desc(name, BuildMode::Debug),
        passed,
        log_path: String::from("out/passed/x-debug.txt"),
        duration_ms,
    }
}

#[test]
fn every_descriptor_gets_exactly_one_outcome_under_continue_on_error() {
    // three descriptors, worker ceiling two, one failure, continue-on-error
    let mut s = SchedulerState::new(3);
    let mut outcomes: usize = 0;
    while !s.drained() {
        if s.may_start(2) {
            s.note_started();
        } else {
            // deliver the oldest in-flight run; the second one fails
            let passed = outcomes != 1;
            s.note_outcome(passed, true);
            outcomes += 1;
        }
    }
    assert_eq!(outcomes, 3);
}

#[test]
fn a_failure_without_continue_on_error_stops_new_starts() {
    let mut s = SchedulerState::new(5);
    assert!(s.may_start(2));
    s.note_started();
    s.note_outcome(false, false);
    assert!(!s.may_start(2));
    assert!(s.drained());
}

#[test]
fn the_concurrency_ceiling_bounds_in_flight_runs() {
    let mut s = SchedulerState::new(5);
    s.note_started();
    s.note_started();
    assert!(!s.may_start(2));
    s.note_outcome(true, true);
    assert!(s.may_start(2));
}

#[test]
fn summary_counters_partition_the_outcomes() {
    let outcomes = vec![
        outcome("a", true, 10),
        outcome("b", false, 20),
        outcome("c", true, 30),
    ];
    let s = summarize(&outcomes, 400);
    assert_eq!(s.passed_count, 2);
    assert_eq!(s.failed_count, 1);
    assert_eq!(s.total_build_ms, 400);
    assert_eq!(s.total_run_ms, 60);
}

#[test]
fn recording_advances_exactly_one_counter() {
    let mut s = BatchSummary::new();
    s.record(true, 5);
    s.record(false, 7);
    s.record(false, 1);
    assert_eq!(s.passed_count, 1);
    assert_eq!(s.failed_count, 2);
    assert_eq!(s.total_run_ms, 13);
}

#[test]
fn run_durations_saturate_instead_of_wrapping() {
    let outcomes = vec![outcome("a", true, u64::MAX), outcome("b", true, 5)];
    let s = summarize(&outcomes, 0);
    assert_eq!(s.total_run_ms, u64::MAX);
}

#[test]
fn build_commands_follow_the_mode() {
    assert_eq!(
        build_command_args(&desc("blinky", BuildMode::Debug)),
        vec![String::from("build"), String::from("--example"), String::from("blinky")]
    );
    assert_eq!(
        build_command_args(&desc("blinky", BuildMode::Release)),
        vec![
            String::from("build"),
            String::from("--example"),
            String::from("blinky"),
            String::from("--release"),
        ]
    );
}

#[test]
fn build_failures_degrade_or_abort_by_policy() {
    let mut b = BuildPhase::new();
    b.note_build_result(desc("a", BuildMode::Debug), true, false, 100);
    assert_eq!(b.runnable.len(), 1);
    assert_eq!(b.failed.len(), 0);
    assert!(!b.aborted);

    let mut degraded = BuildPhase::new();
    degraded.note_build_result(desc("a", BuildMode::Debug), false, true, 100);
    assert_eq!(degraded.runnable.len(), 0);
    assert_eq!(degraded.failed.len(), 1);
    assert!(!degraded.aborted);

    let mut fatal = BuildPhase::new();
    fatal.note_build_result(desc("a", BuildMode::Debug), false, false, 100);
    assert_eq!(fatal.runnable.len(), 0);
    assert_eq!(fatal.failed.len(), 0);
    assert!(fatal.aborted);
}

#[test]
fn build_time_accumulates() {
    let mut b = BuildPhase::new();
    b.note_build_result(desc("a", BuildMode::Debug), true, false, 100);
    b.note_build_result(desc("b", BuildMode::Debug), true, false, 250);
    assert_eq!(b.total_build_ms, 350);
}

#[test]
fn fatality_follows_the_propagation_policy() {
    assert!(error_is_fatal(ErrorKind::Configuration, true));
    assert!(error_is_fatal(ErrorKind::Configuration, false));
    assert!(error_is_fatal(ErrorKind::BuildFailure, false));
    assert!(!error_is_fatal(ErrorKind::BuildFailure, true));
    assert!(!error_is_fatal(ErrorKind::SpawnFailure, false));
    assert!(!error_is_fatal(ErrorKind::TimeoutExceeded, false));
    assert!(!error_is_fatal(ErrorKind::ScenarioMismatch, false));
}

#[test]
fn spawn_failure_is_a_failed_outcome() {
    let o = outcome_for_spawn_failure(desc("a", BuildMode::Debug), String::from("log"), 3);
    assert!(!o.passed);
    assert_eq!(o.duration_ms, 3);
}

#[test]
fn parallelism_requests_are_honored_and_never_zero() {
    assert_eq!(effective_parallelism(4), 4);
    assert_eq!(effective_parallelism(1), 1);
    assert!(effective_parallelism(0) >= 1);
}

#[test]
fn archive_locations_are_exclusive_per_verdict() {
    let d = desc("blinky", BuildMode::Debug);
    assert_eq!(log_file_name(&d), "blinky-debug.txt");
    let tmp = staging_path("out", &d);
    let passed = archive_path("out", &d, true);
    let failed = archive_path("out", &d, false);
    assert_eq!(tmp, "out/tmp/blinky-debug.txt");
    assert_eq!(passed, "out/passed/blinky-debug.txt");
    assert_eq!(failed, "out/failed/blinky-debug.txt");
    assert_ne!(passed, failed);
    assert_ne!(passed, tmp);
    assert_ne!(failed, tmp);
    // archiving twice for the same verdict lands on the same single path
    assert_eq!(archive_path("out", &d, true), passed);
}

#[test]
fn release_mode_gets_its_own_log_file() {
    let d = desc("blinky", BuildMode::Release);
    assert_eq!(log_file_name(&d), "blinky-release.txt");
}
