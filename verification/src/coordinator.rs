//! Run coordinator: drives the active check set through the lifecycle
//! hooks of the shared run state.
//!
//! The coordinator owns the ordering contract: for each check the start
//! hook precedes the finish hook, and the run timing is recorded once,
//! after every dispatched check has either completed or been determined
//! abandoned. A check whose executor crashed has a start and no finish,
//! and so stays discoverable as "not finished". Cross-check ordering
//! under a parallel executor is unspecified; the state's contracts are
//! per-check, so a parallel driver firing the same hooks reaches the
//! same per-check conclusions.

use vstd::prelude::*;

use crate::catalog::{VerificationMetadata, catalog_ids, meta_ids};
use crate::filter::{active_ids, active_spec, lemma_active_unique};
use crate::model::{StateModel, finish_step, seq_views, start_step, timing_step, unique_ids};
use crate::state::{CheckOutcome, CheckStatus, OutcomeModel, RunState};

verus! {

/// The models of a sequence of per-check execution results; `None`
/// stands for a dispatched check that never completed.
pub open spec fn outcome_models(results: Seq<Option<CheckOutcome>>) -> Seq<Option<OutcomeModel>> {
    results.map_values(
        |r: Option<CheckOutcome>|
            match r {
                Some(o) => Some(o.model()),
                None => None,
            },
    )
}

/// One dispatched check: the start hook, then, if the check completed,
/// the finish hook with its outcome.
pub open spec fn dispatch_step(
    m: StateModel,
    id: Seq<char>,
    result: Option<OutcomeModel>,
) -> StateModel {
    match result {
        Some(o) => finish_step(start_step(m, id), o),
        None => start_step(m, id),
    }
}

/// The state after dispatching the whole active set in order, each check
/// with its own result.
pub open spec fn run_spec(
    m: StateModel,
    active: Seq<Seq<char>>,
    results: Seq<Option<OutcomeModel>>,
) -> StateModel
    decreases active.len(),
{
    if active.len() == 0 || results.len() != active.len() {
        m
    } else {
        dispatch_step(
            run_spec(m, active.drop_last(), results.drop_last()),
            active.last(),
            results.last(),
        )
    }
}

/// Each result belongs to the active id at its position, and a completed
/// check carries a finalized outcome.
pub open spec fn results_match(
    active: Seq<Seq<char>>,
    results: Seq<Option<OutcomeModel>>,
) -> bool {
    &&& results.len() == active.len()
    &&& forall|i: int| 0 <= i < results.len() ==> match #[trigger] results[i] {
        Some(o) => o.id == active[i] && o.wf(),
        None => true,
    }
}

/// A state ready to run the given active set: every active id is known
/// and not started, and none carries a recorded failure.
pub open spec fn ready_for(m: StateModel, active: Seq<Seq<char>>) -> bool {
    &&& forall|i: int| 0 <= i < active.len() ==> m.statuses.contains_key(#[trigger] active[i])
        && m.statuses[active[i]] == CheckStatus::NotStarted
    &&& forall|i: int| 0 <= i < active.len() ==> !m.failures.contains_key(#[trigger] active[i])
}

/// Prepare a run: derive the active set from the catalog's ordered ids
/// and the configured exclusions, and set up the shared state with
/// every active check known and not started.
pub fn prepare_run(catalog: &Vec<VerificationMetadata>, excluded: &Vec<String>) -> (r: (
    Vec<String>,
    RunState,
))
    requires
        unique_ids(meta_ids(catalog@)),
    ensures
        seq_views(r.0@) == active_spec(meta_ids(catalog@), seq_views(excluded@)),
        unique_ids(seq_views(r.0@)),
        r.1.wf(),
        r.1.model().order == seq_views(r.0@),
        ready_for(r.1.model(), seq_views(r.0@)),
        r.1.model().start_time is None,
        r.1.model().duration_millis is None,
{
    let ids = catalog_ids(catalog);
    let active = active_ids(&ids, excluded);
    proof {
        lemma_active_unique(meta_ids(catalog@), seq_views(excluded@));
    }
    let state = RunState::new(&active);
    proof {
        let av = seq_views(active@);
        assert forall|i: int| 0 <= i < av.len() implies state.model().statuses.contains_key(
            #[trigger] av[i],
        ) by {
            assert(av.contains(av[i]));
        }
        assert forall|i: int| 0 <= i < av.len() implies state.model().statuses[#[trigger] av[i]]
            == CheckStatus::NotStarted by {
            assert(state.model().statuses.contains_key(av[i]));
        }
        assert forall|i: int| 0 <= i < av.len() implies !state.model().failures.contains_key(
            #[trigger] av[i],
        ) by {
            assert(!Map::<Seq<char>, (u64, u64)>::empty().contains_key(av[i]));
        }
    }
    (active, state)
}

/// Drive one run: dispatch every active check in order, record its start
/// and, for the checks that completed, their outcome, then record the
/// run timing once. A `None` result is a check whose executor was
/// abandoned; it stays "not finished" and the remaining checks still
/// proceed.
pub fn run_all(
    state: &mut RunState,
    active: &Vec<String>,
    results: &Vec<Option<CheckOutcome>>,
    start_time: i64,
    duration_millis: u64,
)
    requires
        old(state).wf(),
        unique_ids(seq_views(active@)),
        results_match(seq_views(active@), outcome_models(results@)),
        ready_for(old(state).model(), seq_views(active@)),
        old(state).model().start_time is None,
        old(state).model().duration_millis is None,
    ensures
        final(state).wf(),
        final(state).model() == timing_step(
            run_spec(old(state).model(), seq_views(active@), outcome_models(results@)),
            start_time,
            duration_millis,
        ),
{
    let ghost m0 = state.model();
    let ghost av = seq_views(active@);
    let ghost rv = outcome_models(results@);
    let mut i: usize = 0;
    while i < active.len()
        invariant
            i <= active@.len(),
            results@.len() == active@.len(),
            av == seq_views(active@),
            rv == outcome_models(results@),
            unique_ids(av),
            results_match(av, rv),
            state.wf(),
            state.model() == run_spec(m0, av.take(i as int), rv.take(i as int)),
            forall|j: int| i <= j < av.len() ==> state.model().statuses.contains_key(#[trigger] av[j])
                && state.model().statuses[av[j]] == CheckStatus::NotStarted,
            forall|j: int| i <= j < av.len()
                ==> !state.model().failures.contains_key(#[trigger] av[j]),
            state.model().start_time == m0.start_time,
            state.model().duration_millis == m0.duration_millis,
        decreases active@.len() - i,
    {
        let ghost m_before = state.model();
        state.record_start(&active[i]);
        match &results[i] {
            Some(o) => {
                state.record_finish(o);
            },
            None => {},
        }
        proof {
            assert(state.model() == dispatch_step(m_before, av[i as int], rv[i as int]));
            assert(av.take(i + 1).drop_last() =~= av.take(i as int));
            assert(rv.take(i + 1).drop_last() =~= rv.take(i as int));
            assert(av.take(i + 1).last() == av[i as int]);
            assert(state.model() == run_spec(m0, av.take(i + 1), rv.take(i + 1)));
            assert forall|j: int| i + 1 <= j < av.len() implies
                state.model().statuses.contains_key(#[trigger] av[j])
                    && state.model().statuses[av[j]] == CheckStatus::NotStarted
                    && !state.model().failures.contains_key(av[j]) by {
                assert(av[j] != av[i as int]);
            }
        }
        i += 1;
    }
    proof {
        assert(av.take(av.len() as int) =~= av);
        assert(rv.take(rv.len() as int) =~= rv);
    }
    state.record_run_timing(start_time, duration_millis);
}

/// The check ended successfully.
pub open spec fn ended_successfully(m: StateModel, id: Seq<char>) -> bool {
    m.statuses.contains_key(id) && m.statuses[id] == CheckStatus::FinishedSuccessfully
}

/// The check finished, but with errors or failures on record.
pub open spec fn ended_with_issues(m: StateModel, id: Seq<char>) -> bool {
    m.failures.contains_key(id)
}

/// The id sits in exactly one of the three buckets a run can leave it
/// in: finished successfully, finished with issues, or not finished.
pub open spec fn in_exactly_one_category(m: StateModel, id: Seq<char>) -> bool {
    ||| ended_successfully(m, id) && !ended_with_issues(m, id) && !m.not_finished().contains(id)
    ||| !ended_successfully(m, id) && ended_with_issues(m, id) && !m.not_finished().contains(id)
    ||| !ended_successfully(m, id) && !ended_with_issues(m, id) && m.not_finished().contains(id)
}

/// A run touches no id outside its active set: status and failure
/// entries of other ids are exactly what they were.
pub proof fn lemma_run_spec_frame(
    m: StateModel,
    active: Seq<Seq<char>>,
    results: Seq<Option<OutcomeModel>>,
    k: Seq<char>,
)
    requires
        results_match(active, results),
        !active.contains(k),
    ensures
        run_spec(m, active, results).statuses.contains_key(k) == m.statuses.contains_key(k),
        m.statuses.contains_key(k) ==> run_spec(m, active, results).statuses[k]
            == m.statuses[k],
        run_spec(m, active, results).failures.contains_key(k) == m.failures.contains_key(k),
        m.failures.contains_key(k) ==> run_spec(m, active, results).failures[k]
            == m.failures[k],
    decreases active.len(),
{
    if active.len() > 0 {
        let a1 = active.drop_last();
        let r1 = results.drop_last();
        assert forall|i: int| 0 <= i < a1.len() implies a1[i] != k by {
            assert(active[i] == a1[i]);
        }
        assert(!a1.contains(k));
        lemma_run_spec_frame(m, a1, r1, k);
        assert(active.last() != k);
    }
}

/// Every active id of a fresh run ends in exactly one of the three
/// buckets: success, issues, or not finished.
pub proof fn lemma_every_active_id_ends_once(
    m0: StateModel,
    active: Seq<Seq<char>>,
    results: Seq<Option<OutcomeModel>>,
)
    requires
        unique_ids(active),
        results_match(active, results),
        ready_for(m0, active),
    ensures
        forall|i: int| 0 <= i < active.len()
            ==> in_exactly_one_category(run_spec(m0, active, results), #[trigger] active[i]),
    decreases active.len(),
{
    if active.len() > 0 {
        let n = active.len() as int;
        let a1 = active.drop_last();
        let r1 = results.drop_last();
        let m1 = run_spec(m0, a1, r1);
        let m2 = run_spec(m0, active, results);
        let last = active.last();
        lemma_every_active_id_ends_once(m0, a1, r1);
        assert forall|i: int| 0 <= i < a1.len() implies a1[i] != last by {
            assert(active[i] == a1[i]);
        }
        assert(!a1.contains(last));
        lemma_run_spec_frame(m0, a1, r1, last);
        assert(m1.statuses[last] == CheckStatus::NotStarted);
        assert(!m1.failures.contains_key(last));
        assert(m2 == dispatch_step(m1, last, results.last()));
        assert(in_exactly_one_category(m2, last)) by {
            match results.last() {
                Some(o) => {
                    assert(o.id == last && o.wf());
                    if o.status == CheckStatus::FinishedSuccessfully {
                        assert(!m2.failures.contains_key(last));
                    } else {
                        assert(o.status.is_issue());
                        assert(m2.failures.contains_key(last));
                    }
                    assert(m2.statuses[last] == o.status);
                    assert(o.status.is_terminal());
                },
                None => {
                    assert(m2.statuses[last] == CheckStatus::Running);
                    assert(!m2.failures.contains_key(last));
                },
            }
        }
        assert forall|i: int| 0 <= i < n - 1 implies in_exactly_one_category(
            m2,
            #[trigger] active[i],
        ) by {
            assert(active[i] == a1[i]);
            assert(in_exactly_one_category(m1, active[i]));
            assert(active[i] != last);
            match results.last() {
                Some(o) => {
                    assert(o.id == last);
                    assert(m2.statuses[active[i]] == m1.statuses[active[i]]);
                },
                None => {},
            }
        }
    }
}

/// A run silently drops no id: dispatching an active set whose ids the
/// state already knows leaves the enumerated ids exactly as they were,
/// so the report still lists every active check.
pub proof fn lemma_run_drops_no_id(
    m0: StateModel,
    active: Seq<Seq<char>>,
    results: Seq<Option<OutcomeModel>>,
)
    requires
        unique_ids(active),
        results_match(active, results),
        ready_for(m0, active),
    ensures
        run_spec(m0, active, results).order == m0.order,
    decreases active.len(),
{
    if active.len() > 0 {
        let a1 = active.drop_last();
        let r1 = results.drop_last();
        lemma_run_drops_no_id(m0, a1, r1);
        let last = active.last();
        assert forall|i: int| 0 <= i < a1.len() implies a1[i] != last by {
            assert(active[i] == a1[i]);
        }
        assert(!a1.contains(last));
        lemma_run_spec_frame(m0, a1, r1, last);
        assert(run_spec(m0, a1, r1).statuses.contains_key(last));
    }
}

/// Two results agree but for their timestamps.
pub open spec fn same_but_times(a: Option<OutcomeModel>, b: Option<OutcomeModel>) -> bool {
    match (a, b) {
        (Some(x), Some(y)) => x.id == y.id && x.status == y.status && x.error_count
            == y.error_count && x.failure_count == y.failure_count,
        (None, None) => true,
        _ => false,
    }
}

/// Running the same active set twice with an executor that is
/// deterministic but for timestamps leaves identical per-check
/// conclusions: the same statuses and the same failure counts.
pub proof fn lemma_rerun_deterministic(
    m0: StateModel,
    active: Seq<Seq<char>>,
    r1: Seq<Option<OutcomeModel>>,
    r2: Seq<Option<OutcomeModel>>,
)
    requires
        r1.len() == active.len(),
        r2.len() == active.len(),
        forall|i: int| 0 <= i < active.len() ==> same_but_times(#[trigger] r1[i], r2[i]),
    ensures
        run_spec(m0, active, r1).order == run_spec(m0, active, r2).order,
        run_spec(m0, active, r1).statuses == run_spec(m0, active, r2).statuses,
        run_spec(m0, active, r1).failures == run_spec(m0, active, r2).failures,
    decreases active.len(),
{
    if active.len() > 0 {
        lemma_rerun_deterministic(m0, active.drop_last(), r1.drop_last(), r2.drop_last());
        let p1 = run_spec(m0, active.drop_last(), r1.drop_last());
        let p2 = run_spec(m0, active.drop_last(), r2.drop_last());
        let last = active.last();
        assert(same_but_times(r1.last(), r2.last()));
        assert(start_step(p1, last).statuses =~= start_step(p2, last).statuses);
        match (r1.last(), r2.last()) {
            (Some(x), Some(y)) => {
                assert(run_spec(m0, active, r1).statuses =~= run_spec(
                    m0,
                    active,
                    r2,
                ).statuses);
                assert(run_spec(m0, active, r1).failures =~= run_spec(
                    m0,
                    active,
                    r2,
                ).failures);
            },
            (None, None) => {},
            _ => {},
        }
    }
}

} // verus!
