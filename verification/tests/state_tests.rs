use verifier_runner::state::{CheckOutcome, CheckStatus, RunState};

fn ids(v: &[&str]) -> Vec<String> {
    v.iter().map(|s| s.to_string()).collect()
}

#[test]
fn outcome_status_follows_the_counts() {
    let ok = CheckOutcome::new("01.01".to_string(), 0, 0, 1, 2);
    assert_eq!(ok.status, CheckStatus::FinishedSuccessfully);
    let with_errors = CheckOutcome::new("01.01".to_string(), 2, 1, 1, 2);
    assert_eq!(with_errors.status, CheckStatus::FinishedWithErrors);
    let with_failures = CheckOutcome::new("01.01".to_string(), 0, 3, 1, 2);
    assert_eq!(with_failures.status, CheckStatus::FinishedWithFailures);
}

#[test]
fn fresh_state_knows_every_active_id_as_not_started() {
    let state = RunState::new(&ids(&["02.01", "02.02"]));
    let statuses = state.status_list();
    assert_eq!(statuses.len(), 2);
    assert_eq!(statuses[0].0, "02.01");
    assert_eq!(statuses[0].1, CheckStatus::NotStarted);
    assert_eq!(statuses[1].0, "02.02");
    assert_eq!(statuses[1].1, CheckStatus::NotStarted);
    assert_eq!(state.not_finished_ids(), ids(&["02.01", "02.02"]));
    assert!(state.issue_entries().is_empty());
}

#[test]
fn start_then_finish_removes_from_not_finished_and_records_counts() {
    let mut state = RunState::new(&ids(&["03.01", "03.02"]));
    state.record_start(&"03.01".to_string());
    assert!(state.not_finished_ids().contains(&"03.01".to_string()));
    let outcome = CheckOutcome::new("03.01".to_string(), 2, 1, 10, 20);
    state.record_finish(&outcome);
    assert!(!state.not_finished_ids().contains(&"03.01".to_string()));
    let issues = state.issue_entries();
    assert_eq!(issues.len(), 1);
    assert_eq!(issues[0].id, "03.01");
    assert_eq!(issues[0].error_count, 2);
    assert_eq!(issues[0].failure_count, 1);
}

#[test]
fn successful_finish_leaves_no_failure_entry() {
    let mut state = RunState::new(&ids(&["02.01"]));
    state.record_start(&"02.01".to_string());
    state.record_finish(&CheckOutcome::new("02.01".to_string(), 0, 0, 10, 20));
    assert!(state.issue_entries().is_empty());
    assert!(state.not_finished_ids().is_empty());
    let statuses = state.status_list();
    assert_eq!(statuses[0].1, CheckStatus::FinishedSuccessfully);
}

#[test]
fn starting_an_unknown_id_adds_it() {
    let mut state = RunState::new(&ids(&["02.01"]));
    state.record_start(&"07.07".to_string());
    let statuses = state.status_list();
    assert_eq!(statuses.len(), 2);
    assert_eq!(statuses[1].0, "07.07");
    assert_eq!(statuses[1].1, CheckStatus::Running);
    assert!(state.not_finished_ids().contains(&"07.07".to_string()));
}

#[test]
fn run_timing_is_recorded_once() {
    let mut state = RunState::new(&ids(&["02.01"]));
    assert_eq!(state.runner_timing(), (None, None));
    state.record_run_timing(1_700_000_000_000, 42_000);
    assert_eq!(state.runner_timing(), (Some(1_700_000_000_000), Some(42_000)));
}

#[test]
fn a_crashed_check_stays_not_finished() {
    let mut state = RunState::new(&ids(&["02.01", "02.02"]));
    state.record_start(&"02.01".to_string());
    state.record_start(&"02.02".to_string());
    state.record_finish(&CheckOutcome::new("02.01".to_string(), 0, 0, 1, 2));
    let not_finished = state.not_finished_ids();
    assert_eq!(not_finished, ids(&["02.02"]));
}
