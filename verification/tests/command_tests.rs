use verifier_runner::catalog::{VerificationMetadata, VerificationPeriod, catalog_ids, display_name};
use verifier_runner::command::{
    DatasetKind, SubCommands, VerifierSubCommand, VerifiyCommand, parse_dataset_kind,
};
use verifier_runner::errors::{ExtractFault, RunError};

fn sub_command() -> VerifierSubCommand {
    VerifierSubCommand {
        exclude: vec!["02.02".to_string()],
        context_zip: "context.zip".to_string(),
        tally_zip: None,
    }
}

#[test]
fn sub_commands_select_their_period() {
    let setup = SubCommands::Setup(sub_command());
    assert_eq!(setup.period(), Some(VerificationPeriod::Setup));
    let tally = SubCommands::Tally(sub_command());
    assert_eq!(tally.period(), Some(VerificationPeriod::Tally));
    let extract = SubCommands::Extract {
        input: "file.zip".to_string(),
        dataset_type: "context".to_string(),
    };
    assert_eq!(extract.period(), None);
    let command = VerifiyCommand { sub: SubCommands::Setup(sub_command()) };
    assert_eq!(command.sub.period(), Some(VerificationPeriod::Setup));
}

#[test]
fn accepted_dataset_kinds_parse() {
    assert_eq!(parse_dataset_kind(&"context".to_string()).unwrap(), DatasetKind::Context);
    assert_eq!(parse_dataset_kind(&"setup".to_string()).unwrap(), DatasetKind::Setup);
    assert_eq!(parse_dataset_kind(&"tally".to_string()).unwrap(), DatasetKind::Tally);
}

#[test]
fn any_other_dataset_kind_is_rejected() {
    let err = parse_dataset_kind(&"ballots".to_string()).unwrap_err();
    match err {
        RunError::Extract(fault, detail) => {
            assert_eq!(fault, ExtractFault::WrongKind);
            assert_eq!(detail, "not correct dataset type: only context, setup or tally allowed");
        }
        other => panic!("unexpected error: {:?}", other),
    }
}

#[test]
fn fatal_errors_render_their_context() {
    assert_eq!(
        RunError::Config("missing .env".to_string()).message(),
        "configuration error: missing .env"
    );
    assert_eq!(
        RunError::Extract(ExtractFault::BadPassword, "context.zip".to_string()).message(),
        "extraction error (bad password): context.zip"
    );
    assert_eq!(
        RunError::Extract(ExtractFault::CorruptArchive, "tally.zip".to_string()).message(),
        "extraction error (corrupt archive): tally.zip"
    );
    assert_eq!(
        RunError::CatalogLoad("unreadable list".to_string()).message(),
        "catalog load error: unreadable list"
    );
    assert_eq!(
        RunError::RunnerConstruction("no worker threads".to_string()).message(),
        "runner construction error: no worker threads"
    );
}

#[test]
fn catalog_names_resolve_per_id() {
    let cat = vec![
        VerificationMetadata { id: "02.01".to_string(), name: "Signature".to_string() },
        VerificationMetadata { id: "02.02".to_string(), name: "Consistency".to_string() },
    ];
    assert_eq!(catalog_ids(&cat), vec!["02.01".to_string(), "02.02".to_string()]);
    assert_eq!(display_name(&cat, &"02.02".to_string()), Some("Consistency".to_string()));
    assert_eq!(display_name(&cat, &"09.99".to_string()), None);
}
