//! Command data model: what the verifier console is asked to do.
//!
//! The surrounding application parses the command line and the
//! environment; these types carry the parsed request into the library,
//! with file paths as plain strings.

use vstd::prelude::*;
use vstd::string::StringExecFns;

use crate::catalog::VerificationPeriod;
use crate::errors::{ExtractFault, RunError};

verus! {

/// Arguments shared by the setup and tally sub commands: the ids of the
/// verifications to exclude, the context archive, and for tally the
/// tally archive.
#[derive(Clone, Debug)]
pub struct VerifierSubCommand {
    pub exclude: Vec<String>,
    pub context_zip: String,
    pub tally_zip: Option<String>,
}

/// The sub commands of the verifier console: verify the setup
/// configuration, verify the tally configuration, or only extract an
/// archive.
#[derive(Clone, Debug)]
pub enum SubCommands {
    Setup(VerifierSubCommand),
    Tally(VerifierSubCommand),
    Extract { input: String, dataset_type: String },
}

/// Main command of the verifier console.
#[derive(Clone, Debug)]
pub struct VerifiyCommand {
    pub sub: SubCommands,
}

impl SubCommands {
    /// The verification period this sub command runs checks for, if it
    /// runs any.
    pub fn period(&self) -> (r: Option<VerificationPeriod>)
        ensures
            match self {
                SubCommands::Setup(_) => r == Some(VerificationPeriod::Setup),
                SubCommands::Tally(_) => r == Some(VerificationPeriod::Tally),
                SubCommands::Extract { .. } => r is None,
            },
    {
        match self {
            SubCommands::Setup(_) => Some(VerificationPeriod::Setup),
            SubCommands::Tally(_) => Some(VerificationPeriod::Tally),
            SubCommands::Extract { .. } => None,
        }
    }
}

/// The kind of dataset an archive holds.
#[derive(Clone, Copy, Debug, PartialEq, Eq, Structural)]
pub enum DatasetKind {
    Context,
    Setup,
    Tally,
}

/// The accepted spellings of a dataset kind: "context", "setup" and
/// "tally"; anything else is rejected.
pub open spec fn dataset_kind_spec(s: Seq<char>) -> Option<DatasetKind> {
    if s == "context"@ {
        Some(DatasetKind::Context)
    } else if s == "setup"@ {
        Some(DatasetKind::Setup)
    } else if s == "tally"@ {
        Some(DatasetKind::Tally)
    } else {
        None
    }
}

/// Parse the dataset type argument of the extract command. Exactly the
/// three accepted spellings succeed; any other input is rejected as a
/// wrong dataset kind, and the run is aborted.
pub fn parse_dataset_kind(s: &String) -> (r: Result<DatasetKind, RunError>)
    ensures
        match r {
            Ok(k) => dataset_kind_spec(s@) == Some(k),
            Err(e) => {
                &&& dataset_kind_spec(s@) is None
                &&& e matches RunError::Extract(f, d)
                &&& f == ExtractFault::WrongKind
                &&& d@ == "not correct dataset type: only context, setup or tally allowed"@
            },
        },
{
    if *s == String::from_str("context") {
        Ok(DatasetKind::Context)
    } else if *s == String::from_str("setup") {
        Ok(DatasetKind::Setup)
    } else if *s == String::from_str("tally") {
        Ok(DatasetKind::Tally)
    } else {
        Err(
            RunError::Extract(
                ExtractFault::WrongKind,
                String::from_str("not correct dataset type: only context, setup or tally allowed"),
            ),
        )
    }
}

} // verus!
