//! Manual verification synthesizer: turns the terminal run state and the
//! exclusion list into a summary of the checks that need human
//! attention.
//!
//! The summary enumerates three disjoint categories: the ids excluded by
//! configuration, the ids not finished, and the ids finished with
//! issues, the last with their error and failure counts. Display names
//! come from the catalog metadata; a missing name degrades gracefully:
//! the entry keeps an empty name, the summary notes the internal error,
//! and the run does not fail.

use vstd::prelude::*;

use crate::catalog::{VerificationMetadata, display_name, meta_ids, name_map};
use crate::filter::{dedup_id_list, dedup_ids};
use crate::model::{
    StateModel, issue_ids, lemma_issue_ids_membership, lemma_unfinished_ids_membership, seq_views,
    unfinished_ids, unique_ids,
};
use crate::state::RunState;

verus! {

/// One summarized check: its id and its display name, empty when the
/// catalog does not know the id.
#[derive(Clone, Debug)]
pub struct SummaryEntry {
    pub id: String,
    pub name: String,
}

/// One check that finished with issues, with its display name and its
/// counts.
#[derive(Clone, Debug)]
pub struct IssueSummaryEntry {
    pub id: String,
    pub name: String,
    pub error_count: u64,
    pub failure_count: u64,
}

/// The human-facing summary of one run: what was excluded, what never
/// finished, and what finished with issues.
#[derive(Clone, Debug)]
pub struct ManualVerificationSummary {
    pub excluded: Vec<SummaryEntry>,
    pub not_finished: Vec<SummaryEntry>,
    pub with_issues: Vec<IssueSummaryEntry>,
    pub metadata_complete: bool,
}

/// The display name an entry carries: the catalog's name, or empty when
/// the catalog does not know the id.
pub open spec fn entry_name(c: Seq<VerificationMetadata>, id: Seq<char>) -> Seq<char> {
    if name_map(c).contains_key(id) {
        name_map(c)[id]
    } else {
        Seq::empty()
    }
}

/// The catalog knows a display name for every one of the ids.
pub open spec fn all_named(c: Seq<VerificationMetadata>, ids: Seq<Seq<char>>) -> bool {
    forall|i: int| 0 <= i < ids.len() ==> name_map(c).contains_key(#[trigger] ids[i])
}

/// Extending the enumerated prefix by one id.
proof fn lemma_all_named_step(c: Seq<VerificationMetadata>, ids: Seq<Seq<char>>, i: int)
    requires
        0 <= i < ids.len(),
    ensures
        all_named(c, ids.take(i + 1)) <==> (all_named(c, ids.take(i))
            && name_map(c).contains_key(ids[i])),
{
    assert(forall|j: int| 0 <= j < i + 1 ==> ids.take(i + 1)[j] == ids[j]);
    assert(forall|j: int| 0 <= j < i ==> ids.take(i)[j] == ids[j]);
    if all_named(c, ids.take(i)) && name_map(c).contains_key(ids[i]) {
        assert forall|j: int| 0 <= j < ids.take(i + 1).len() implies name_map(c).contains_key(
            #[trigger] ids.take(i + 1)[j],
        ) by {
            if j < i {
                assert(ids.take(i)[j] == ids[j]);
            }
        }
    }
    if all_named(c, ids.take(i + 1)) {
        assert forall|j: int| 0 <= j < ids.take(i).len() implies name_map(c).contains_key(
            #[trigger] ids.take(i)[j],
        ) by {
            assert(ids.take(i + 1)[j] == ids[j]);
        }
        assert(ids.take(i + 1)[i] == ids[i]);
    }
}

/// The three summary categories are disjoint: an id the configuration
/// excluded is never among the enumerated checks (it was filtered out
/// before the run, so the state does not know it), and no id is both
/// unfinished and finished with issues.
pub proof fn lemma_categories_disjoint(m: StateModel, excluded: Seq<Seq<char>>)
    requires
        forall|i: int| 0 <= i < excluded.len() ==> !m.statuses.contains_key(
            #[trigger] excluded[i],
        ),
    ensures
        forall|i: int| 0 <= i < excluded.len() ==> !unfinished_ids(m.order, m.statuses).contains(
            #[trigger] excluded[i],
        ),
        forall|i: int| 0 <= i < excluded.len() ==> !issue_ids(m.order, m.statuses).contains(
            #[trigger] excluded[i],
        ),
        forall|k: Seq<char>| !(unfinished_ids(m.order, m.statuses).contains(k) && issue_ids(
            m.order,
            m.statuses,
        ).contains(k)),
{
    assert forall|i: int| 0 <= i < excluded.len() implies !unfinished_ids(
        m.order,
        m.statuses,
    ).contains(#[trigger] excluded[i]) && !issue_ids(m.order, m.statuses).contains(
        excluded[i],
    ) by {
        lemma_unfinished_ids_membership(m.order, m.statuses, excluded[i]);
        lemma_issue_ids_membership(m.order, m.statuses, excluded[i]);
    }
    assert forall|k: Seq<char>| !(unfinished_ids(m.order, m.statuses).contains(k) && issue_ids(
        m.order,
        m.statuses,
    ).contains(k)) by {
        lemma_unfinished_ids_membership(m.order, m.statuses, k);
        lemma_issue_ids_membership(m.order, m.statuses, k);
    }
}

/// Build the manual verification summary from the run state, the
/// configured exclusions, and the catalog metadata.
///
/// The three categories are exact: the excluded entries are the unique
/// exclusion ids, first occurrences in their configured order (an id
/// excluded twice is one exclusion, not two entries); the not-finished
/// entries are the known ids without a terminal status, in order; the
/// issue entries are the known ids that finished with issues, in
/// order, each with the counts on record. `metadata_complete` is false
/// exactly when some enumerated id had no display name in the catalog.
pub fn synthesize(
    state: &RunState,
    excluded: &Vec<String>,
    catalog: &Vec<VerificationMetadata>,
) -> (r: ManualVerificationSummary)
    requires
        state.wf(),
        unique_ids(meta_ids(catalog@)),
    ensures
        r.excluded@.map_values(|e: SummaryEntry| e.id@) == dedup_ids(seq_views(excluded@)),
        forall|i: int| 0 <= i < r.excluded@.len() ==> (#[trigger] r.excluded@[i]).name@
            == entry_name(catalog@, r.excluded@[i].id@),
        r.not_finished@.map_values(|e: SummaryEntry| e.id@) == unfinished_ids(
            state.model().order,
            state.model().statuses,
        ),
        forall|i: int| 0 <= i < r.not_finished@.len() ==> (#[trigger] r.not_finished@[i]).name@
            == entry_name(catalog@, r.not_finished@[i].id@),
        r.with_issues@.map_values(|e: IssueSummaryEntry| e.id@) == issue_ids(
            state.model().order,
            state.model().statuses,
        ),
        forall|i: int| 0 <= i < r.with_issues@.len() ==> {
            &&& state.model().failures.contains_key((#[trigger] r.with_issues@[i]).id@)
            &&& (r.with_issues@[i].error_count, r.with_issues@[i].failure_count)
                == state.model().failures[r.with_issues@[i].id@]
            &&& r.with_issues@[i].name@ == entry_name(catalog@, r.with_issues@[i].id@)
        },
        r.metadata_complete <==> {
            &&& all_named(catalog@, dedup_ids(seq_views(excluded@)))
            &&& all_named(catalog@, unfinished_ids(state.model().order, state.model().statuses))
            &&& all_named(catalog@, issue_ids(state.model().order, state.model().statuses))
        },
{
    let mut complete: bool = true;

    let deduped = dedup_id_list(excluded);
    let mut excluded_entries: Vec<SummaryEntry> = Vec::new();
    let mut i: usize = 0;
    while i < deduped.len()
        invariant
            unique_ids(meta_ids(catalog@)),
            i <= deduped@.len(),
            seq_views(deduped@) == dedup_ids(seq_views(excluded@)),
            excluded_entries@.len() == i,
            forall|j: int| 0 <= j < i ==> (#[trigger] excluded_entries@[j]).id@ == deduped@[j]@
                && excluded_entries@[j].name@ == entry_name(catalog@, deduped@[j]@),
            complete <==> all_named(catalog@, seq_views(deduped@).take(i as int)),
        decreases deduped@.len() - i,
    {
        let name = match display_name(catalog, &deduped[i]) {
            Some(n) => n,
            None => {
                complete = false;
                String::new()
            },
        };
        excluded_entries.push(SummaryEntry { id: deduped[i].clone(), name });
        proof {
            let ev = seq_views(deduped@);
            lemma_all_named_step(catalog@, ev, i as int);
        }
        i += 1;
    }
    proof {
        assert(seq_views(deduped@).take(deduped@.len() as int) =~= seq_views(deduped@));
        assert(excluded_entries@.map_values(|e: SummaryEntry| e.id@) =~= seq_views(deduped@));
    }

    let not_finished_plain = state.not_finished_ids();
    let mut not_finished: Vec<SummaryEntry> = Vec::new();
    let mut i: usize = 0;
    while i < not_finished_plain.len()
        invariant
            unique_ids(meta_ids(catalog@)),
            i <= not_finished_plain@.len(),
            not_finished@.len() == i,
            forall|j: int| 0 <= j < i ==> (#[trigger] not_finished@[j]).id@
                == not_finished_plain@[j]@ && not_finished@[j].name@ == entry_name(
                catalog@,
                not_finished_plain@[j]@,
            ),
            complete <==> (all_named(catalog@, dedup_ids(seq_views(excluded@))) && all_named(
                catalog@,
                seq_views(not_finished_plain@).take(i as int),
            )),
        decreases not_finished_plain@.len() - i,
    {
        let name = match display_name(catalog, &not_finished_plain[i]) {
            Some(n) => n,
            None => {
                complete = false;
                String::new()
            },
        };
        not_finished.push(SummaryEntry { id: not_finished_plain[i].clone(), name });
        proof {
            let nv = seq_views(not_finished_plain@);
            lemma_all_named_step(catalog@, nv, i as int);
        }
        i += 1;
    }
    proof {
        assert(seq_views(not_finished_plain@).take(not_finished_plain@.len() as int)
            =~= seq_views(not_finished_plain@));
        assert(not_finished@.map_values(|e: SummaryEntry| e.id@) =~= seq_views(
            not_finished_plain@,
        ));
    }

    let issue_records = state.issue_entries();
    let mut with_issues: Vec<IssueSummaryEntry> = Vec::new();
    let mut i: usize = 0;
    while i < issue_records.len()
        invariant
            unique_ids(meta_ids(catalog@)),
            state.wf(),
            i <= issue_records@.len(),
            with_issues@.len() == i,
            forall|j: int| 0 <= j < issue_records@.len() ==> state.model().failures.contains_key(
                (#[trigger] issue_records@[j]).id@,
            ) && (issue_records@[j].error_count, issue_records@[j].failure_count)
                == state.model().failures[issue_records@[j].id@],
            forall|j: int| 0 <= j < i ==> (#[trigger] with_issues@[j]).id@
                == issue_records@[j].id@ && with_issues@[j].name@ == entry_name(
                catalog@,
                issue_records@[j].id@,
            ) && with_issues@[j].error_count == issue_records@[j].error_count
                && with_issues@[j].failure_count == issue_records@[j].failure_count,
            complete <==> (all_named(catalog@, dedup_ids(seq_views(excluded@))) && all_named(
                catalog@,
                seq_views(not_finished_plain@),
            ) && all_named(
                catalog@,
                issue_records@.map_values(|e: crate::state::IssueRecord| e.id@).take(i as int),
            )),
        decreases issue_records@.len() - i,
    {
        let name = match display_name(catalog, &issue_records[i].id) {
            Some(n) => n,
            None => {
                complete = false;
                String::new()
            },
        };
        with_issues.push(
            IssueSummaryEntry {
                id: issue_records[i].id.clone(),
                name,
                error_count: issue_records[i].error_count,
                failure_count: issue_records[i].failure_count,
            },
        );
        proof {
            let iv = issue_records@.map_values(|e: crate::state::IssueRecord| e.id@);
            lemma_all_named_step(catalog@, iv, i as int);
        }
        i += 1;
    }
    proof {
        let iv = issue_records@.map_values(|e: crate::state::IssueRecord| e.id@);
        assert(iv.take(iv.len() as int) =~= iv);
        assert(with_issues@.map_values(|e: IssueSummaryEntry| e.id@) =~= iv);
    }

    ManualVerificationSummary {
        excluded: excluded_entries,
        not_finished,
        with_issues,
        metadata_complete: complete,
    }
}

} // verus!
