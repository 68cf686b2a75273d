//! Error taxonomy of a verification run.
//!
//! Only fatal faults live here: each aborts the whole run with context
//! and propagates to the caller. Per-check errors and failures, and
//! per-format render errors, are never raised as run-level failures:
//! they are captured in the run state and folded into the report.

use vstd::prelude::*;
use vstd::string::StringExecFns;

verus! {

/// The kind of fault met while obtaining the extracted dataset.
#[derive(Clone, Copy, Debug, PartialEq, Eq, Structural)]
pub enum ExtractFault {
    BadPassword,
    CorruptArchive,
    WrongKind,
}

/// A short name of the extraction fault.
pub open spec fn fault_name_spec(f: ExtractFault) -> Seq<char> {
    match f {
        ExtractFault::BadPassword => "bad password"@,
        ExtractFault::CorruptArchive => "corrupt archive"@,
        ExtractFault::WrongKind => "wrong dataset kind"@,
    }
}

/// A fatal fault of the run: configuration, dataset extraction, catalog
/// loading, or the construction of the runner. Each aborts the run
/// before any check starts.
#[derive(Clone, Debug)]
pub enum RunError {
    Config(String),
    Extract(ExtractFault, String),
    CatalogLoad(String),
    RunnerConstruction(String),
}

impl RunError {
    /// The human-readable message of the fault.
    pub open spec fn message_spec(self) -> Seq<char> {
        match self {
            RunError::Config(d) => "configuration error: "@ + d@,
            RunError::Extract(f, d) => "extraction error ("@ + fault_name_spec(f) + "): "@ + d@,
            RunError::CatalogLoad(d) => "catalog load error: "@ + d@,
            RunError::RunnerConstruction(d) => "runner construction error: "@ + d@,
        }
    }

    /// Render the fault for logs and the process exit message.
    pub fn message(&self) -> (r: String)
        ensures
            r@ == self.message_spec(),
    {
        match self {
            RunError::Config(d) => String::from_str("configuration error: ").concat(d.as_str()),
            RunError::Extract(f, d) => {
                let name: &str = match f {
                    ExtractFault::BadPassword => "bad password",
                    ExtractFault::CorruptArchive => "corrupt archive",
                    ExtractFault::WrongKind => "wrong dataset kind",
                };
                String::from_str("extraction error (").concat(name).concat("): ").concat(
                    d.as_str(),
                )
            },
            RunError::CatalogLoad(d) => String::from_str("catalog load error: ").concat(
                d.as_str(),
            ),
            RunError::RunnerConstruction(d) => String::from_str(
                "runner construction error: ",
            ).concat(d.as_str()),
        }
    }
}

} // verus!
