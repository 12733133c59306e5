use example_runner::lifecycle::{RunEvent, RunLifecycle, RunStatus};
use example_runner::matcher::{ExpectedEvent, Scenario, ScenarioMatcher};

fn scenario(texts: &[&str]) -> Scenario {
    let mut steps = Vec::new();
    for t in texts {
        steps.push(ExpectedEvent { match_text: String::from(*t) });
    }
    Scenario { steps }
}

#[test]
fn ordered_lines_complete_the_scenario() {
    let mut m = ScenarioMatcher::new(scenario(&["BOOT", "READY"]));
    assert!(!m.is_complete());
    m.observe_line("chip BOOT ok");
    assert!(!m.is_complete());
    m.observe_line("system READY now");
    assert!(m.is_complete());
}

#[test]
fn missing_step_text_never_completes() {
    let mut m = ScenarioMatcher::new(scenario(&["BOOT", "READY"]));
    m.observe_line("BOOT");
    m.observe_line("BOOT");
    m.observe_line("shutdown");
    assert!(!m.is_complete());
}

#[test]
fn later_step_text_does_not_advance_matcher() {
    let mut m = ScenarioMatcher::new(scenario(&["A-ONE", "B-TWO", "C-THREE"]));
    m.observe_line("C-THREE");
    assert!(!m.is_complete());
    m.observe_line("B-TWO");
    assert!(!m.is_complete());
    // the matcher is still waiting for the first step
    m.observe_line("A-ONE");
    m.observe_line("B-TWO");
    m.observe_line("C-THREE");
    assert!(m.is_complete());
}

#[test]
fn one_line_satisfies_at_most_one_step() {
    let mut m = ScenarioMatcher::new(scenario(&["BOOT", "BOOT"]));
    m.observe_line("BOOT");
    assert!(!m.is_complete());
    m.observe_line("BOOT");
    assert!(m.is_complete());
}

#[test]
fn observe_lines_runs_the_batch_in_order() {
    let mut m = ScenarioMatcher::new(scenario(&["one", "two"]));
    let lines = vec![
        String::from("say one"),
        String::from("say two"),
    ];
    m.observe_lines(&lines);
    assert!(m.is_complete());

    let mut m2 = ScenarioMatcher::new(scenario(&["one", "two"]));
    let reversed = vec![
        String::from("say two"),
        String::from("say one"),
    ];
    m2.observe_lines(&reversed);
    assert!(!m2.is_complete());
}

#[test]
fn empty_scenario_is_complete_from_the_start() {
    let m = ScenarioMatcher::new(scenario(&[]));
    assert!(m.is_complete());
}

#[test]
fn two_step_stream_in_order_passes_in_two_transitions() {
    let mut run = RunLifecycle::new(Some(scenario(&["BOOT", "READY"])));
    assert_eq!(run.on_event(RunEvent::LineObserved(String::from("BOOT"))), RunStatus::Running);
    assert_eq!(
        run.on_event(RunEvent::LineObserved(String::from("READY"))),
        RunStatus::Finished { passed: true, must_kill: true }
    );
}

#[test]
fn reversed_stream_then_close_fails() {
    let mut run = RunLifecycle::new(Some(scenario(&["BOOT", "READY"])));
    assert_eq!(run.on_event(RunEvent::LineObserved(String::from("READY"))), RunStatus::Running);
    assert_eq!(run.on_event(RunEvent::LineObserved(String::from("BOOT"))), RunStatus::Running);
    // the stream closes: the backend exits before the scenario is satisfied
    assert_eq!(
        run.on_event(RunEvent::ProcessExited { success: true }),
        RunStatus::Finished { passed: false, must_kill: false }
    );
}

#[test]
fn no_scenario_successful_exit_passes() {
    let mut run = RunLifecycle::new(None);
    assert_eq!(
        run.on_event(RunEvent::ProcessExited { success: true }),
        RunStatus::Finished { passed: true, must_kill: false }
    );
}

#[test]
fn no_scenario_failing_exit_fails() {
    let mut run = RunLifecycle::new(None);
    assert_eq!(
        run.on_event(RunEvent::ProcessExited { success: false }),
        RunStatus::Finished { passed: false, must_kill: false }
    );
}

#[test]
fn timeout_fails_and_kills_the_process() {
    let mut run = RunLifecycle::new(None);
    assert_eq!(
        run.on_event(RunEvent::TimeoutExpired),
        RunStatus::Finished { passed: false, must_kill: true }
    );
    let mut gated = RunLifecycle::new(Some(scenario(&["BOOT"])));
    assert_eq!(
        gated.on_event(RunEvent::TimeoutExpired),
        RunStatus::Finished { passed: false, must_kill: true }
    );
}

#[test]
fn lines_without_scenario_keep_running() {
    let mut run = RunLifecycle::new(None);
    assert_eq!(run.on_event(RunEvent::LineObserved(String::from("noise"))), RunStatus::Running);
    assert_eq!(
        run.on_event(RunEvent::ProcessExited { success: true }),
        RunStatus::Finished { passed: true, must_kill: false }
    );
}
