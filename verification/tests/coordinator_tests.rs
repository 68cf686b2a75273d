use verifier_runner::catalog::VerificationMetadata;
use verifier_runner::coordinator::{prepare_run, run_all};
use verifier_runner::state::{CheckOutcome, CheckStatus};

fn ids(v: &[&str]) -> Vec<String> {
    v.iter().map(|s| s.to_string()).collect()
}

fn catalog(v: &[(&str, &str)]) -> Vec<VerificationMetadata> {
    v.iter()
        .map(|(id, name)| VerificationMetadata { id: id.to_string(), name: name.to_string() })
        .collect()
}

#[test]
fn prepare_run_filters_and_initializes() {
    let cat = catalog(&[("02.01", "a"), ("02.02", "b"), ("05.05", "c")]);
    let (active, state) = prepare_run(&cat, &ids(&["05.05"]));
    assert_eq!(active, ids(&["02.01", "02.02"]));
    let statuses = state.status_list();
    assert_eq!(statuses.len(), 2);
    assert!(statuses.iter().all(|(_, s)| *s == CheckStatus::NotStarted));
}

#[test]
fn a_crash_leaves_the_check_not_finished_and_others_proceed() {
    let cat = catalog(&[("02.01", "a"), ("02.02", "b"), ("05.05", "c")]);
    let (active, mut state) = prepare_run(&cat, &ids(&["05.05"]));
    let results = vec![
        Some(CheckOutcome::new("02.01".to_string(), 0, 0, 1, 2)),
        None,
    ];
    run_all(&mut state, &active, &results, 100, 5_000);
    let statuses = state.status_list();
    assert_eq!(statuses[0].1, CheckStatus::FinishedSuccessfully);
    assert_eq!(statuses[1].1, CheckStatus::Running);
    assert_eq!(state.not_finished_ids(), ids(&["02.02"]));
    assert!(state.issue_entries().is_empty());
    assert_eq!(state.runner_timing(), (Some(100), Some(5_000)));
}

#[test]
fn every_active_id_ends_in_exactly_one_bucket() {
    let cat = catalog(&[("01.01", "a"), ("02.01", "b"), ("03.01", "c")]);
    let (active, mut state) = prepare_run(&cat, &ids(&[]));
    let results = vec![
        Some(CheckOutcome::new("01.01".to_string(), 0, 0, 1, 2)),
        Some(CheckOutcome::new("02.01".to_string(), 1, 0, 1, 2)),
        None,
    ];
    run_all(&mut state, &active, &results, 0, 1);
    let not_finished = state.not_finished_ids();
    let issues: Vec<String> = state.issue_entries().iter().map(|e| e.id.clone()).collect();
    for (id, status) in state.status_list() {
        let successful = status == CheckStatus::FinishedSuccessfully;
        let with_issues = issues.contains(&id);
        let unfinished = not_finished.contains(&id);
        let buckets = [successful, with_issues, unfinished];
        assert_eq!(buckets.iter().filter(|b| **b).count(), 1);
    }
}

#[test]
fn finished_with_issues_is_not_listed_as_not_finished() {
    let cat = catalog(&[("03.01", "a")]);
    let (active, mut state) = prepare_run(&cat, &ids(&[]));
    let results = vec![Some(CheckOutcome::new("03.01".to_string(), 2, 1, 1, 2))];
    run_all(&mut state, &active, &results, 0, 1);
    let issues = state.issue_entries();
    assert_eq!(issues.len(), 1);
    assert_eq!(issues[0].id, "03.01");
    assert_eq!((issues[0].error_count, issues[0].failure_count), (2, 1));
    assert!(state.not_finished_ids().is_empty());
}

#[test]
fn rerunning_with_the_same_results_gives_identical_conclusions() {
    let cat = catalog(&[("01.01", "a"), ("02.01", "b"), ("03.01", "c")]);

    // Two runs of the same deterministic executor: outcomes agree but
    // for their timestamps.
    let run = |start: i64| {
        let (active, mut state) = prepare_run(&cat, &ids(&["02.01"]));
        let results = vec![
            Some(CheckOutcome::new("01.01".to_string(), 0, 2, start, start + 5)),
            Some(CheckOutcome::new("03.01".to_string(), 0, 0, start, start + 9)),
        ];
        run_all(&mut state, &active, &results, start, 60);
        (state.status_list(), state.issue_entries())
    };

    let (statuses_a, issues_a) = run(1_000);
    let (statuses_b, issues_b) = run(2_000);
    assert_eq!(statuses_a, statuses_b);
    assert_eq!(issues_a.len(), issues_b.len());
    for (a, b) in issues_a.iter().zip(issues_b.iter()) {
        assert_eq!(a.id, b.id);
        assert_eq!(a.error_count, b.error_count);
        assert_eq!(a.failure_count, b.failure_count);
    }
}
