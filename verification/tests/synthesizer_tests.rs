use verifier_runner::catalog::VerificationMetadata;
use verifier_runner::coordinator::{prepare_run, run_all};
use verifier_runner::state::CheckOutcome;
use verifier_runner::synthesizer::synthesize;

fn ids(v: &[&str]) -> Vec<String> {
    v.iter().map(|s| s.to_string()).collect()
}

fn catalog(v: &[(&str, &str)]) -> Vec<VerificationMetadata> {
    v.iter()
        .map(|(id, name)| VerificationMetadata { id: id.to_string(), name: name.to_string() })
        .collect()
}

#[test]
fn summary_sorts_each_id_into_its_category() {
    let cat = catalog(&[
        ("02.01", "Signature of context"),
        ("02.02", "Consistency of context"),
        ("05.05", "Evidence of tally"),
    ]);
    let excluded = ids(&["05.05"]);
    let (active, mut state) = prepare_run(&cat, &excluded);
    assert_eq!(active, ids(&["02.01", "02.02"]));

    // 02.01 succeeds; 02.02's executor crashes after its start.
    state.record_start(&"02.01".to_string());
    state.record_finish(&CheckOutcome::new("02.01".to_string(), 0, 0, 1, 2));
    state.record_start(&"02.02".to_string());

    let summary = synthesize(&state, &excluded, &cat);
    assert_eq!(summary.excluded.len(), 1);
    assert_eq!(summary.excluded[0].id, "05.05");
    assert_eq!(summary.excluded[0].name, "Evidence of tally");
    assert_eq!(summary.not_finished.len(), 1);
    assert_eq!(summary.not_finished[0].id, "02.02");
    assert_eq!(summary.not_finished[0].name, "Consistency of context");
    assert!(summary.with_issues.is_empty());
    assert!(summary.metadata_complete);
    assert!(!summary.with_issues.iter().any(|e| e.id == "02.01"));
    assert!(!summary.not_finished.iter().any(|e| e.id == "02.01"));
}

#[test]
fn issues_carry_their_counts_and_names() {
    let cat = catalog(&[("03.01", "Integrity of setup")]);
    let (active, mut state) = prepare_run(&cat, &ids(&[]));
    let results = vec![Some(CheckOutcome::new("03.01".to_string(), 2, 1, 1, 2))];
    run_all(&mut state, &active, &results, 0, 1);

    let summary = synthesize(&state, &ids(&[]), &cat);
    assert!(summary.excluded.is_empty());
    assert!(summary.not_finished.is_empty());
    assert_eq!(summary.with_issues.len(), 1);
    let entry = &summary.with_issues[0];
    assert_eq!(entry.id, "03.01");
    assert_eq!(entry.name, "Integrity of setup");
    assert_eq!((entry.error_count, entry.failure_count), (2, 1));
    assert!(summary.metadata_complete);
}

#[test]
fn missing_metadata_degrades_gracefully() {
    let cat = catalog(&[("02.01", "Signature of context")]);
    let excluded = ids(&["09.09"]);
    let (_, state) = prepare_run(&cat, &excluded);

    let summary = synthesize(&state, &excluded, &cat);
    // The unknown excluded id is still enumerated, with an empty name,
    // and the summary notes the incomplete metadata instead of failing.
    assert_eq!(summary.excluded.len(), 1);
    assert_eq!(summary.excluded[0].id, "09.09");
    assert_eq!(summary.excluded[0].name, "");
    assert!(!summary.metadata_complete);
}

#[test]
fn duplicate_exclusions_appear_once_in_the_summary() {
    let cat = catalog(&[("02.01", "Signature of context"), ("05.05", "Evidence of tally")]);
    let excluded = ids(&["05.05", "05.05"]);
    let (active, state) = prepare_run(&cat, &excluded);
    assert_eq!(active, ids(&["02.01"]));
    let summary = synthesize(&state, &excluded, &cat);
    assert_eq!(summary.excluded.len(), 1);
    assert_eq!(summary.excluded[0].id, "05.05");
    assert_eq!(summary.excluded[0].name, "Evidence of tally");
}
