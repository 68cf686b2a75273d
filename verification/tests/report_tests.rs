use verifier_runner::catalog::{VerificationMetadata, VerificationPeriod};
use verifier_runner::coordinator::{prepare_run, run_all};
use verifier_runner::report::{
    ExtractionMetadata, RenderOutcome, assemble_report, build_report_now, collect_render_results,
    report_file_name, report_title,
};
use verifier_runner::state::{CheckOutcome, CheckStatus};
use verifier_runner::synthesizer::synthesize;

fn ids(v: &[&str]) -> Vec<String> {
    v.iter().map(|s| s.to_string()).collect()
}

fn catalog(v: &[(&str, &str)]) -> Vec<VerificationMetadata> {
    v.iter()
        .map(|(id, name)| VerificationMetadata { id: id.to_string(), name: name.to_string() })
        .collect()
}

fn extraction() -> ExtractionMetadata {
    ExtractionMetadata {
        location: "/tmp/datasets/run1".to_string(),
        fingerprint: "ab12cd34".to_string(),
    }
}

#[test]
fn title_names_the_period() {
    assert_eq!(report_title(VerificationPeriod::Setup), "E-Voting Verifier Report Setup");
    assert_eq!(report_title(VerificationPeriod::Tally), "E-Voting Verifier Report Tally");
}

#[test]
fn file_name_joins_period_seed_and_date() {
    let name = report_file_name(
        VerificationPeriod::Tally,
        &"seed42".to_string(),
        &"20260101_093000".to_string(),
    );
    assert_eq!(name, "e_voting_verifier_report_Tally_seed42_20260101_093000");
}

#[test]
fn report_enumerates_every_active_id() {
    let cat = catalog(&[("03.01", "a"), ("03.02", "b")]);
    let (active, mut state) = prepare_run(&cat, &ids(&[]));
    let results = vec![
        Some(CheckOutcome::new("03.01".to_string(), 2, 1, 1, 2)),
        None,
    ];
    run_all(&mut state, &active, &results, 77, 1_234);
    let summary = synthesize(&state, &ids(&[]), &cat);

    let report = assemble_report(
        VerificationPeriod::Setup,
        "01.01.2026 10:00:00".to_string(),
        &state,
        summary,
        extraction(),
    );
    assert_eq!(report.title, "E-Voting Verifier Report Setup");
    assert_eq!(report.timestamp, "01.01.2026 10:00:00");
    assert_eq!(report.period, VerificationPeriod::Setup);
    assert_eq!(report.statuses.len(), 2);
    assert_eq!(report.statuses[0].0, "03.01");
    assert_eq!(report.statuses[0].1, CheckStatus::FinishedWithErrors);
    assert_eq!(report.statuses[1].0, "03.02");
    assert_eq!(report.not_finished, ids(&["03.02"]));
    assert!(!report.is_complete());
    assert_eq!(report.start_time, 77);
    assert_eq!(report.duration_millis, 1_234);
    assert_eq!(report.extraction.fingerprint, "ab12cd34");
    // Finished with issues is reported as such, not as unfinished.
    assert!(report.summary.with_issues.iter().any(|e| e.id == "03.01"));
    assert!(!report.not_finished.contains(&"03.01".to_string()));
}

#[test]
fn complete_report_has_no_unfinished_ids() {
    let cat = catalog(&[("02.01", "a")]);
    let (active, mut state) = prepare_run(&cat, &ids(&[]));
    let results = vec![Some(CheckOutcome::new("02.01".to_string(), 0, 0, 1, 2))];
    run_all(&mut state, &active, &results, 0, 1);
    let summary = synthesize(&state, &ids(&[]), &cat);
    let report = assemble_report(
        VerificationPeriod::Tally,
        "ts".to_string(),
        &state,
        summary,
        extraction(),
    );
    assert!(report.is_complete());
}

#[test]
fn report_stamped_now_keeps_the_pinned_fields() {
    let cat = catalog(&[("02.01", "a")]);
    let (active, mut state) = prepare_run(&cat, &ids(&[]));
    let results = vec![Some(CheckOutcome::new("02.01".to_string(), 0, 0, 1, 2))];
    run_all(&mut state, &active, &results, 5, 10);
    let summary = synthesize(&state, &ids(&[]), &cat);
    let (report, file_name) = build_report_now(
        VerificationPeriod::Setup,
        &state,
        summary,
        extraction(),
        &"seed7".to_string(),
    );
    assert_eq!(report.title, "E-Voting Verifier Report Setup");
    assert!(file_name.starts_with("e_voting_verifier_report_Setup_seed7_"));
    // The display time stamp carries at least the full date-time shape.
    assert!(report.timestamp.len() >= 19);
}

#[test]
fn one_failing_format_leaves_exactly_one_error_and_the_other_artifact() {
    let outcomes = vec![
        RenderOutcome { format: "pdf".to_string(), error: Some("font not embedded".to_string()) },
        RenderOutcome { format: "txt".to_string(), error: None },
    ];
    let (failures, rendered) = collect_render_results(&outcomes);
    assert_eq!(failures.len(), 1);
    assert_eq!(failures[0].format, "pdf");
    assert_eq!(failures[0].message, "font not embedded");
    assert_eq!(rendered, ids(&["txt"]));
}

#[test]
fn all_formats_succeeding_collects_no_errors() {
    let outcomes = vec![
        RenderOutcome { format: "pdf".to_string(), error: None },
        RenderOutcome { format: "html".to_string(), error: None },
        RenderOutcome { format: "txt".to_string(), error: None },
    ];
    let (failures, rendered) = collect_render_results(&outcomes);
    assert!(failures.is_empty());
    assert_eq!(rendered, ids(&["pdf", "html", "txt"]));
}
