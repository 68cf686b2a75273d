//! Report assembler: combines run timing, the manual verification
//! summary and the dataset extraction metadata into one run report,
//! independent of any rendering format.
//!
//! The report enumerates every known check id with its final status;
//! unreached checks are explicitly listed as not finished, never
//! silently dropped. Rendering the report to files is delegated to an
//! external renderer; its per-format verdicts are folded here so that
//! one failing format never hides another format's artifact.

use vstd::prelude::*;
use vstd::string::StringExecFns;

use crate::catalog::VerificationPeriod;
use crate::model::{seq_views, unfinished_ids};
use crate::state::{CheckStatus, RunState};
use crate::synthesizer::ManualVerificationSummary;

verus! {

/// Where the extracted dataset lies and its fingerprint.
#[derive(Clone, Debug)]
pub struct ExtractionMetadata {
    pub location: String,
    pub fingerprint: String,
}

/// The durable, renderer-agnostic summary of one verification run:
/// built once, immutable thereafter.
#[derive(Clone, Debug)]
pub struct RunReport {
    pub title: String,
    pub timestamp: String,
    pub period: VerificationPeriod,
    pub statuses: Vec<(String, CheckStatus)>,
    pub not_finished: Vec<String>,
    pub summary: ManualVerificationSummary,
    pub extraction: ExtractionMetadata,
    pub start_time: i64,
    pub duration_millis: u64,
}

impl RunReport {
    /// A complete run: every active check reached a terminal status.
    pub fn is_complete(&self) -> (r: bool)
        ensures
            r == (self.not_finished@.len() == 0),
    {
        self.not_finished.is_empty()
    }
}

/// The report title for a period.
pub open spec fn title_spec(period: VerificationPeriod) -> Seq<char> {
    "E-Voting Verifier Report "@ + period.name_spec()
}

/// Build the report title for a period.
pub fn report_title(period: VerificationPeriod) -> (r: String)
    ensures
        r@ == title_spec(period),
{
    let p = period.name();
    String::from_str("E-Voting Verifier Report ").concat(p.as_str())
}

/// The stem of the report's file name: period, run seed and date, each
/// separated by an underscore.
pub open spec fn file_name_spec(
    period: VerificationPeriod,
    seed: Seq<char>,
    date: Seq<char>,
) -> Seq<char> {
    "e_voting_verifier_report_"@ + period.name_spec() + "_"@ + seed + "_"@ + date
}

/// Build the stem of the report's file name.
pub fn report_file_name(period: VerificationPeriod, seed: &String, date: &String) -> (r: String)
    ensures
        r@ == file_name_spec(period, seed@, date@),
{
    let p = period.name();
    String::from_str("e_voting_verifier_report_").concat(p.as_str()).concat("_").concat(
        seed.as_str(),
    ).concat("_").concat(date.as_str())
}

/// Assemble the run report from the terminal state, the synthesized
/// summary and the extraction metadata, under the given title timestamp.
///
/// Every known id appears in `statuses` with its final status, the
/// unreached ones appear again under `not_finished`, and the run-level
/// timing is the one the state recorded.
pub fn assemble_report(
    period: VerificationPeriod,
    timestamp: String,
    state: &RunState,
    summary: ManualVerificationSummary,
    extraction: ExtractionMetadata,
) -> (r: RunReport)
    requires
        state.wf(),
        state.model().start_time is Some,
        state.model().duration_millis is Some,
    ensures
        r.title@ == title_spec(period),
        r.timestamp == timestamp,
        r.period == period,
        r.statuses@.map_values(|p: (String, CheckStatus)| p.0@) == state.model().order,
        forall|i: int| 0 <= i < r.statuses@.len() ==> (#[trigger] r.statuses@[i]).1
            == state.model().statuses[state.model().order[i]],
        seq_views(r.not_finished@) == unfinished_ids(
            state.model().order,
            state.model().statuses,
        ),
        r.summary == summary,
        r.extraction == extraction,
        Some(r.start_time) == state.model().start_time,
        Some(r.duration_millis) == state.model().duration_millis,
{
    let title = report_title(period);
    let statuses = state.status_list();
    let not_finished = state.not_finished_ids();
    let (start_opt, duration_opt) = state.runner_timing();
    let start_time: i64 = match start_opt {
        Some(v) => v,
        None => {
            assert(false);
            0
        },
    };
    let duration_millis: u64 = match duration_opt {
        Some(v) => v,
        None => {
            assert(false);
            0
        },
    };
    RunReport {
        title,
        timestamp,
        period,
        statuses,
        not_finished,
        summary,
        extraction,
        start_time,
        duration_millis,
    }
}

/// Relies on chrono: `Local::now` and `DateTime::format` render the
/// current local date-time with the given pattern. Only the two
/// patterns the report uses are admitted: chrono parses an invalid
/// pattern to an error item, and rendering one aborts, so arbitrary
/// patterns must stay out. Each admitted field renders at its minimum
/// width or wider, so the result is at least as long as the pattern's
/// fixed shape: 19 characters for the display form, 15 for the file
/// form. The rendered instant depends on the clock and the machine's
/// time zone, so nothing more is assumed.
#[verifier::external_body]
fn local_now_formatted(pattern: &str) -> (r: String)
    requires
        pattern@ == "%d.%m.%Y %H:%M:%S"@ || pattern@ == "%Y%m%d_%H%M%S"@,
    ensures
        r@.len() >= 15,
        pattern@ == "%d.%m.%Y %H:%M:%S"@ ==> r@.len() >= 19,
{
    chrono::Local::now().format(pattern).to_string()
}

/// Assemble the run report stamped with the current local time, and the
/// file name stem its durable serialization is stored under.
///
/// Everything but the instant itself is pinned: the report's fields are
/// those of [`assemble_report`], the time stamp carries at least the
/// full date-time shape, and the file name follows [`file_name_spec`]
/// with the current date in its last slot.
pub fn build_report_now(
    period: VerificationPeriod,
    state: &RunState,
    summary: ManualVerificationSummary,
    extraction: ExtractionMetadata,
    seed: &String,
) -> (r: (RunReport, String))
    requires
        state.wf(),
        state.model().start_time is Some,
        state.model().duration_millis is Some,
    ensures
        r.0.title@ == title_spec(period),
        r.0.period == period,
        r.0.statuses@.map_values(|p: (String, CheckStatus)| p.0@) == state.model().order,
        forall|i: int| 0 <= i < r.0.statuses@.len() ==> (#[trigger] r.0.statuses@[i]).1
            == state.model().statuses[state.model().order[i]],
        seq_views(r.0.not_finished@) == unfinished_ids(
            state.model().order,
            state.model().statuses,
        ),
        r.0.summary == summary,
        r.0.extraction == extraction,
        Some(r.0.start_time) == state.model().start_time,
        Some(r.0.duration_millis) == state.model().duration_millis,
        r.0.timestamp@.len() >= 19,
        exists|date: Seq<char>| r.1@ == file_name_spec(period, seed@, date),
{
    let timestamp = local_now_formatted("%d.%m.%Y %H:%M:%S");
    let file_date = local_now_formatted("%Y%m%d_%H%M%S");
    let report = assemble_report(period, timestamp, state, summary, extraction);
    let name = report_file_name(period, seed, &file_date);
    proof {
        assert(name@ == file_name_spec(period, seed@, file_date@));
    }
    (report, name)
}

/// The per-format verdict the external renderer hands back: the format
/// it attempted and the error, if that format failed.
#[derive(Clone, Debug)]
pub struct RenderOutcome {
    pub format: String,
    pub error: Option<String>,
}

/// One failed rendering format with its message.
#[derive(Clone, Debug)]
pub struct RenderFailure {
    pub format: String,
    pub message: String,
}

/// The formats that failed, with their messages, in order.
pub open spec fn failed_formats(outcomes: Seq<RenderOutcome>) -> Seq<(Seq<char>, Seq<char>)>
    decreases outcomes.len(),
{
    if outcomes.len() == 0 {
        Seq::empty()
    } else {
        let prefix = failed_formats(outcomes.drop_last());
        match outcomes.last().error {
            Some(m) => prefix.push((outcomes.last().format@, m@)),
            None => prefix,
        }
    }
}

/// The formats whose artifact was written, in order.
pub open spec fn rendered_formats(outcomes: Seq<RenderOutcome>) -> Seq<Seq<char>>
    decreases outcomes.len(),
{
    if outcomes.len() == 0 {
        Seq::empty()
    } else {
        let prefix = rendered_formats(outcomes.drop_last());
        match outcomes.last().error {
            Some(m) => prefix,
            None => prefix.push(outcomes.last().format@),
        }
    }
}

/// Fold the renderer's per-format verdicts: the failures to log, and
/// the formats whose artifact was written. Render errors are per
/// format: one failing format is collected individually and never
/// discards another format's artifact, and no render error fails the
/// run.
pub fn collect_render_results(outcomes: &Vec<RenderOutcome>) -> (r: (
    Vec<RenderFailure>,
    Vec<String>,
))
    ensures
        r.0@.map_values(|f: RenderFailure| (f.format@, f.message@)) == failed_formats(outcomes@),
        seq_views(r.1@) == rendered_formats(outcomes@),
{
    let mut failures: Vec<RenderFailure> = Vec::new();
    let mut rendered: Vec<String> = Vec::new();
    let mut i: usize = 0;
    while i < outcomes.len()
        invariant
            i <= outcomes@.len(),
            failures@.map_values(|f: RenderFailure| (f.format@, f.message@)) == failed_formats(
                outcomes@.take(i as int),
            ),
            seq_views(rendered@) == rendered_formats(outcomes@.take(i as int)),
        decreases outcomes@.len() - i,
    {
        let ghost failures_old = failures@;
        let ghost rendered_old = rendered@;
        match &outcomes[i].error {
            Some(m) => {
                failures.push(
                    RenderFailure { format: outcomes[i].format.clone(), message: m.clone() },
                );
                proof {
                    assert(failures@.map_values(|f: RenderFailure| (f.format@, f.message@))
                        =~= failures_old.map_values(
                        |f: RenderFailure| (f.format@, f.message@),
                    ).push((outcomes@[i as int].format@, outcomes@[i as int].error->0@)));
                }
            },
            None => {
                rendered.push(outcomes[i].format.clone());
                proof {
                    assert(seq_views(rendered@) =~= seq_views(rendered_old).push(
                        outcomes@[i as int].format@,
                    ));
                }
            },
        }
        proof {
            assert(outcomes@.take(i + 1).drop_last() =~= outcomes@.take(i as int));
            assert(outcomes@.take(i + 1).last() == outcomes@[i as int]);
        }
        i += 1;
    }
    proof {
        assert(outcomes@.take(outcomes@.len() as int) =~= outcomes@);
    }
    (failures, rendered)
}

} // verus!
