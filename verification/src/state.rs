//! Shared run state: the accumulator of per-check outcomes and run timing.
//!
//! The state is mutated only through the lifecycle hooks
//! [`RunState::record_start`], [`RunState::record_finish`] and
//! [`RunState::record_run_timing`]; everything else reads it.

use vstd::prelude::*;

use crate::model::{
    StateModel, finish_step, issue_ids, keyed_map, lemma_issue_ids_membership,
    lemma_keyed_map_domain, lemma_keyed_map_index, lemma_keyed_map_push, lemma_keyed_map_update,
    lemma_unfinished_ids_membership, seq_views, start_step, timing_step, unfinished_ids,
    unique_ids,
};

verus! {

/// Lifecycle position of one check.
///
/// Each active check moves from `NotStarted` over `Running` to exactly one
/// of the three terminal statuses, and never leaves a terminal status.
#[derive(Clone, Copy, Debug, PartialEq, Eq, Structural)]
pub enum CheckStatus {
    NotStarted,
    Running,
    FinishedSuccessfully,
    FinishedWithErrors,
    FinishedWithFailures,
}

impl CheckStatus {
    /// True of the statuses a check can end in.
    pub open spec fn is_terminal(self) -> bool {
        match self {
            CheckStatus::NotStarted => false,
            CheckStatus::Running => false,
            CheckStatus::FinishedSuccessfully => true,
            CheckStatus::FinishedWithErrors => true,
            CheckStatus::FinishedWithFailures => true,
        }
    }

    /// True of the terminal statuses that flag the check for follow-up.
    pub open spec fn is_issue(self) -> bool {
        self == CheckStatus::FinishedWithErrors || self == CheckStatus::FinishedWithFailures
    }

    /// Executable test for a terminal status.
    pub fn terminal(&self) -> (r: bool)
        ensures
            r == self.is_terminal(),
    {
        match self {
            CheckStatus::NotStarted => false,
            CheckStatus::Running => false,
            _ => true,
        }
    }

    /// Executable test for a terminal status other than success.
    pub fn issue(&self) -> (r: bool)
        ensures
            r == self.is_issue(),
    {
        match self {
            CheckStatus::FinishedWithErrors => true,
            CheckStatus::FinishedWithFailures => true,
            _ => false,
        }
    }
}

/// Mathematical image of a [`CheckOutcome`]: the id as a character
/// sequence, the rest as plain values.
pub ghost struct OutcomeModel {
    pub id: Seq<char>,
    pub status: CheckStatus,
    pub error_count: u64,
    pub failure_count: u64,
    pub start_time: i64,
    pub end_time: i64,
}

impl OutcomeModel {
    /// A finalized outcome: its status is the one its counts dictate.
    pub open spec fn wf(self) -> bool {
        self.status == status_of_counts(self.error_count, self.failure_count)
    }
}

/// The completion record of one check: created when the check starts,
/// finalized exactly once on completion, never mutated afterwards.
#[derive(Clone, Debug)]
pub struct CheckOutcome {
    pub id: String,
    pub status: CheckStatus,
    pub error_count: u64,
    pub failure_count: u64,
    pub start_time: i64,
    pub end_time: i64,
}

/// The terminal status that a pair of error and failure counts dictates:
/// any error outweighs failures, any failure outweighs success.
pub open spec fn status_of_counts(error_count: u64, failure_count: u64) -> CheckStatus {
    if error_count > 0 {
        CheckStatus::FinishedWithErrors
    } else if failure_count > 0 {
        CheckStatus::FinishedWithFailures
    } else {
        CheckStatus::FinishedSuccessfully
    }
}

impl CheckOutcome {
    pub open spec fn model(self) -> OutcomeModel {
        OutcomeModel {
            id: self.id@,
            status: self.status,
            error_count: self.error_count,
            failure_count: self.failure_count,
            start_time: self.start_time,
            end_time: self.end_time,
        }
    }

    /// A finalized outcome: terminal, with the status the counts dictate.
    pub open spec fn wf(self) -> bool {
        self.status == status_of_counts(self.error_count, self.failure_count)
    }

    /// Finalize the outcome of one completed check from its counts.
    pub fn new(
        id: String,
        error_count: u64,
        failure_count: u64,
        start_time: i64,
        end_time: i64,
    ) -> (r: CheckOutcome)
        ensures
            r.id == id,
            r.error_count == error_count,
            r.failure_count == failure_count,
            r.start_time == start_time,
            r.end_time == end_time,
            r.status == status_of_counts(error_count, failure_count),
            r.wf(),
    {
        let status = if error_count > 0 {
            CheckStatus::FinishedWithErrors
        } else if failure_count > 0 {
            CheckStatus::FinishedWithFailures
        } else {
            CheckStatus::FinishedSuccessfully
        };
        CheckOutcome { id, status, error_count, failure_count, start_time, end_time }
    }
}

/// Index of the first string in `v` whose characters are those of `id`.
pub(crate) fn find_index(v: &Vec<String>, id: &String) -> (r: Option<usize>)
    ensures
        match r {
            Some(i) => i < v@.len() && v@[i as int]@ == id@,
            None => forall|i: int| 0 <= i < v@.len() ==> v@[i]@ != id@,
        },
{
    let mut i: usize = 0;
    while i < v.len()
        invariant
            i <= v@.len(),
            forall|j: int| 0 <= j < i ==> v@[j]@ != id@,
        decreases v@.len() - i,
    {
        if v[i] == *id {
            return Some(i);
        }
        i += 1;
    }
    None
}

/// One check that finished with issues: its id and the error and
/// failure counts on record for it.
#[derive(Clone, Debug)]
pub struct IssueRecord {
    pub id: String,
    pub error_count: u64,
    pub failure_count: u64,
}

/// The concurrency-safe accumulator of one run: which checks are known,
/// where each stands in its lifecycle, the counts of the ones that
/// finished with issues, and the run-level timing.
///
/// The caller guards a shared instance with one reader/writer lock and
/// holds it only across single hook calls, never across a check's
/// execution; each hook performs one structural mutation.
pub struct RunState {
    ids: Vec<String>,
    status_of: Vec<CheckStatus>,
    failure_ids: Vec<String>,
    failure_counts: Vec<(u64, u64)>,
    run_start: Option<i64>,
    run_duration: Option<u64>,
}

impl RunState {
    /// The mathematical image of the state.
    pub closed spec fn model(self) -> StateModel {
        StateModel {
            order: seq_views(self.ids@),
            statuses: keyed_map(seq_views(self.ids@), self.status_of@),
            failures: keyed_map(seq_views(self.failure_ids@), self.failure_counts@),
            start_time: self.run_start,
            duration_millis: self.run_duration,
        }
    }

    /// Well-formedness: parallel vectors agree, ids are unique, and every
    /// recorded failure belongs to a check whose status shows issues.
    pub closed spec fn wf(self) -> bool {
        &&& self.ids@.len() == self.status_of@.len()
        &&& self.failure_ids@.len() == self.failure_counts@.len()
        &&& unique_ids(seq_views(self.ids@))
        &&& unique_ids(seq_views(self.failure_ids@))
        &&& forall|k: Seq<char>| #[trigger] self.model().failures.contains_key(k)
            ==> self.model().statuses.contains_key(k) && self.model().statuses[k].is_issue()
        &&& forall|k: Seq<char>| (#[trigger] self.model().statuses.contains_key(k))
            && self.model().statuses[k].is_issue() ==> self.model().failures.contains_key(k)
    }

    /// What well-formedness guarantees a reader, stated over the model:
    /// the known ids are unique and key the status map, and the
    /// failures map holds exactly the checks whose status is terminal
    /// with issues — so every recorded failure is listed among the
    /// issue ids and never among the unfinished ids.
    pub proof fn lemma_wf_model(self)
        requires
            self.wf(),
        ensures
            self.model().inv(),
            forall|k: Seq<char>| #[trigger] self.model().failures.contains_key(k)
                ==> self.model().statuses.contains_key(k)
                    && self.model().statuses[k].is_issue(),
            forall|k: Seq<char>| (#[trigger] self.model().statuses.contains_key(k))
                && self.model().statuses[k].is_issue() ==> self.model().failures.contains_key(
                k,
            ),
            forall|k: Seq<char>| #[trigger] self.model().failures.contains_key(k) ==> issue_ids(
                self.model().order,
                self.model().statuses,
            ).contains(k) && !unfinished_ids(self.model().order, self.model().statuses).contains(
                k,
            ),
    {
        let m = self.model();
        assert forall|k: Seq<char>| #[trigger] m.statuses.contains_key(k) <==> m.order.contains(
            k,
        ) by {
            lemma_keyed_map_domain(seq_views(self.ids@), self.status_of@, k);
        }
        assert(m.statuses.dom() =~= m.order.to_set());
        assert forall|k: Seq<char>| #[trigger] m.failures.contains_key(k) implies issue_ids(
            m.order,
            m.statuses,
        ).contains(k) && !unfinished_ids(m.order, m.statuses).contains(k) by {
            lemma_issue_ids_membership(m.order, m.statuses, k);
            lemma_unfinished_ids_membership(m.order, m.statuses, k);
        }
    }

    /// Prepare the state for a run: every active id is known and not
    /// started, no failures are recorded, no timing is set.
    pub fn new(active: &Vec<String>) -> (r: RunState)
        requires
            unique_ids(seq_views(active@)),
        ensures
            r.wf(),
            r.model().order == seq_views(active@),
            forall|k: Seq<char>| #[trigger] r.model().statuses.contains_key(k)
                <==> seq_views(active@).contains(k),
            forall|k: Seq<char>| #[trigger] r.model().statuses.contains_key(k)
                ==> r.model().statuses[k] == CheckStatus::NotStarted,
            r.model().failures == Map::<Seq<char>, (u64, u64)>::empty(),
            r.model().start_time is None,
            r.model().duration_millis is None,
    {
        let mut ids: Vec<String> = Vec::new();
        let mut status_of: Vec<CheckStatus> = Vec::new();
        let mut i: usize = 0;
        while i < active.len()
            invariant
                i <= active@.len(),
                ids@ == active@.take(i as int),
                status_of@.len() == i,
                forall|j: int| 0 <= j < i ==> status_of@[j] == CheckStatus::NotStarted,
            decreases active@.len() - i,
        {
            ids.push(active[i].clone());
            status_of.push(CheckStatus::NotStarted);
            proof {
                assert(ids@ =~= active@.take(i + 1));
            }
            i += 1;
        }
        proof {
            assert(ids@ =~= active@);
        }
        let r = RunState {
            ids,
            status_of,
            failure_ids: Vec::new(),
            failure_counts: Vec::new(),
            run_start: None,
            run_duration: None,
        };
        proof {
            assert forall|k: Seq<char>| #[trigger] r.model().statuses.contains_key(k)
                <==> seq_views(active@).contains(k) by {
                lemma_keyed_map_domain(seq_views(r.ids@), r.status_of@, k);
            }
            assert forall|k: Seq<char>| r.model().statuses.contains_key(k)
                implies #[trigger] r.model().statuses[k] == CheckStatus::NotStarted by {
                lemma_keyed_map_domain(seq_views(r.ids@), r.status_of@, k);
                let j = choose|j: int|
                    0 <= j < seq_views(r.ids@).len() && seq_views(r.ids@)[j] == k;
                lemma_keyed_map_index(seq_views(r.ids@), r.status_of@, j);
            }
        }
        r
    }

    /// Lifecycle hook fired immediately before a check executes: the id
    /// becomes running, and is added to the known ids if absent.
    ///
    /// A check never runs again once it has reached a terminal status.
    pub fn record_start(&mut self, id: &String)
        requires
            old(self).wf(),
            old(self).model().statuses.contains_key(id@)
                ==> !old(self).model().statuses[id@].is_terminal(),
        ensures
            final(self).wf(),
            final(self).model() == start_step(old(self).model(), id@),
    {
        match find_index(&self.ids, id) {
            Some(i) => {
                proof {
                    lemma_keyed_map_index(seq_views(self.ids@), self.status_of@, i as int);
                    lemma_keyed_map_update(
                        seq_views(self.ids@),
                        self.status_of@,
                        i as int,
                        CheckStatus::Running,
                    );
                }
                self.status_of[i] = CheckStatus::Running;
                proof {
                    assert(self.model().statuses
                        == old(self).model().statuses.insert(id@, CheckStatus::Running));
                    assert(self.model() == start_step(old(self).model(), id@));
                }
            },
            None => {
                proof {
                    lemma_keyed_map_domain(seq_views(self.ids@), self.status_of@, id@);
                    lemma_keyed_map_push(
                        seq_views(self.ids@),
                        self.status_of@,
                        id@,
                        CheckStatus::Running,
                    );
                }
                self.ids.push(id.clone());
                self.status_of.push(CheckStatus::Running);
                proof {
                    assert(seq_views(self.ids@) =~= seq_views(old(self).ids@).push(id@));
                    assert(self.model() == start_step(old(self).model(), id@));
                }
            },
        }
    }

    /// Lifecycle hook fired immediately after a check completes: the
    /// check leaves "not finished" by taking the outcome's terminal
    /// status, and a non-success outcome enters the failures map with its
    /// error and failure counts.
    pub fn record_finish(&mut self, outcome: &CheckOutcome)
        requires
            old(self).wf(),
            outcome.wf(),
            old(self).model().statuses.contains_key(outcome.id@),
            old(self).model().statuses[outcome.id@] == CheckStatus::Running,
        ensures
            final(self).wf(),
            final(self).model() == finish_step(old(self).model(), outcome.model()),
    {
        match find_index(&self.ids, &outcome.id) {
            Some(i) => {
                proof {
                    lemma_keyed_map_index(seq_views(self.ids@), self.status_of@, i as int);
                    lemma_keyed_map_update(
                        seq_views(self.ids@),
                        self.status_of@,
                        i as int,
                        outcome.status,
                    );
                }
                self.status_of[i] = outcome.status;
            },
            None => {
                proof {
                    lemma_keyed_map_domain(seq_views(self.ids@), self.status_of@, outcome.id@);
                }
                assert(false);
            },
        }
        if outcome.status.issue() {
            proof {
                lemma_keyed_map_domain(
                    seq_views(self.failure_ids@),
                    self.failure_counts@,
                    outcome.id@,
                );
                lemma_keyed_map_push(
                    seq_views(self.failure_ids@),
                    self.failure_counts@,
                    outcome.id@,
                    (outcome.error_count, outcome.failure_count),
                );
            }
            self.failure_ids.push(outcome.id.clone());
            self.failure_counts.push((outcome.error_count, outcome.failure_count));
            proof {
                assert(seq_views(self.failure_ids@)
                    =~= seq_views(old(self).failure_ids@).push(outcome.id@));
            }
        }
        proof {
            assert(self.model() == finish_step(old(self).model(), outcome.model()));
        }
    }

    /// The ids that have not reached a terminal status, in the order
    /// they are known: at the end of a run, exactly the checks that must
    /// be flagged as not finished.
    pub fn not_finished_ids(&self) -> (r: Vec<String>)
        requires
            self.wf(),
        ensures
            seq_views(r@) == unfinished_ids(self.model().order, self.model().statuses),
    {
        let ghost order = self.model().order;
        let ghost statuses = self.model().statuses;
        let mut r: Vec<String> = Vec::new();
        let mut i: usize = 0;
        while i < self.ids.len()
            invariant
                self.wf(),
                i <= self.ids@.len(),
                order == self.model().order,
                statuses == self.model().statuses,
                seq_views(r@) == unfinished_ids(order.take(i as int), statuses),
            decreases self.ids@.len() - i,
        {
            let ghost r_old = r@;
            proof {
                lemma_keyed_map_index(seq_views(self.ids@), self.status_of@, i as int);
            }
            if !self.status_of[i].terminal() {
                r.push(self.ids[i].clone());
                proof {
                    assert(seq_views(r@) =~= seq_views(r_old).push(order[i as int]));
                }
            }
            proof {
                assert(order.take(i + 1).drop_last() =~= order.take(i as int));
                assert(order.take(i + 1).last() == order[i as int]);
            }
            i += 1;
        }
        proof {
            assert(order.take(order.len() as int) =~= order);
        }
        r
    }

    /// The checks that finished with issues, in the order they are
    /// known, each with the error and failure counts on record.
    pub fn issue_entries(&self) -> (r: Vec<IssueRecord>)
        requires
            self.wf(),
        ensures
            r@.map_values(|e: IssueRecord| e.id@) == issue_ids(
                self.model().order,
                self.model().statuses,
            ),
            forall|i: int| 0 <= i < r@.len() ==> self.model().failures.contains_key(
                #[trigger] r@[i].id@,
            ) && (r@[i].error_count, r@[i].failure_count) == self.model().failures[r@[i].id@],
    {
        let ghost order = self.model().order;
        let ghost statuses = self.model().statuses;
        let mut r: Vec<IssueRecord> = Vec::new();
        let mut i: usize = 0;
        while i < self.ids.len()
            invariant
                self.wf(),
                i <= self.ids@.len(),
                order == self.model().order,
                statuses == self.model().statuses,
                r@.map_values(|e: IssueRecord| e.id@) == issue_ids(order.take(i as int), statuses),
                forall|j: int| 0 <= j < r@.len() ==> self.model().failures.contains_key(
                    #[trigger] r@[j].id@,
                ) && (r@[j].error_count, r@[j].failure_count)
                    == self.model().failures[r@[j].id@],
            decreases self.ids@.len() - i,
        {
            let ghost r_old = r@;
            proof {
                lemma_keyed_map_index(seq_views(self.ids@), self.status_of@, i as int);
            }
            if self.status_of[i].issue() {
                match find_index(&self.failure_ids, &self.ids[i]) {
                    Some(j) => {
                        proof {
                            lemma_keyed_map_index(
                                seq_views(self.failure_ids@),
                                self.failure_counts@,
                                j as int,
                            );
                        }
                        let counts = self.failure_counts[j];
                        r.push(
                            IssueRecord {
                                id: self.ids[i].clone(),
                                error_count: counts.0,
                                failure_count: counts.1,
                            },
                        );
                        proof {
                            assert(r@.map_values(|e: IssueRecord| e.id@) =~= r_old.map_values(
                                |e: IssueRecord| e.id@,
                            ).push(order[i as int]));
                        }
                    },
                    None => {
                        proof {
                            lemma_keyed_map_domain(
                                seq_views(self.failure_ids@),
                                self.failure_counts@,
                                order[i as int],
                            );
                        }
                        assert(false);
                    },
                }
            }
            proof {
                assert(order.take(i + 1).drop_last() =~= order.take(i as int));
                assert(order.take(i + 1).last() == order[i as int]);
            }
            i += 1;
        }
        proof {
            assert(order.take(order.len() as int) =~= order);
        }
        r
    }

    /// Every known id with its current status, in order: the run
    /// report's full enumeration, in which no active id is silently
    /// dropped.
    pub fn status_list(&self) -> (r: Vec<(String, CheckStatus)>)
        requires
            self.wf(),
        ensures
            r@.map_values(|p: (String, CheckStatus)| p.0@) == self.model().order,
            forall|i: int| 0 <= i < r@.len() ==> (#[trigger] r@[i]).1
                == self.model().statuses[self.model().order[i]],
    {
        let ghost order = self.model().order;
        let mut r: Vec<(String, CheckStatus)> = Vec::new();
        let mut i: usize = 0;
        while i < self.ids.len()
            invariant
                self.wf(),
                i <= self.ids@.len(),
                order == self.model().order,
                r@.map_values(|p: (String, CheckStatus)| p.0@) == order.take(i as int),
                forall|j: int| 0 <= j < r@.len() ==> (#[trigger] r@[j]).1
                    == self.model().statuses[order[j]],
            decreases self.ids@.len() - i,
        {
            let ghost r_old = r@;
            proof {
                lemma_keyed_map_index(seq_views(self.ids@), self.status_of@, i as int);
            }
            r.push((self.ids[i].clone(), self.status_of[i]));
            proof {
                assert(r@.map_values(|p: (String, CheckStatus)| p.0@) =~= r_old.map_values(
                    |p: (String, CheckStatus)| p.0@,
                ).push(order[i as int]));
                assert(order.take(i + 1) =~= order.take(i as int).push(order[i as int]));
            }
            i += 1;
        }
        proof {
            assert(order.take(order.len() as int) =~= order);
        }
        r
    }

    /// The current status of one id, or `None` for an unknown id.
    pub fn status_of(&self, id: &String) -> (r: Option<CheckStatus>)
        requires
            self.wf(),
        ensures
            match r {
                Some(s) => self.model().statuses.contains_key(id@) && s
                    == self.model().statuses[id@],
                None => !self.model().statuses.contains_key(id@),
            },
    {
        match find_index(&self.ids, id) {
            Some(i) => {
                proof {
                    lemma_keyed_map_index(seq_views(self.ids@), self.status_of@, i as int);
                }
                Some(self.status_of[i])
            },
            None => {
                proof {
                    lemma_keyed_map_domain(seq_views(self.ids@), self.status_of@, id@);
                }
                None
            },
        }
    }

    /// The run-level timing, as recorded: start time and duration, or
    /// `None` where the corresponding hook has not fired.
    pub fn runner_timing(&self) -> (r: (Option<i64>, Option<u64>))
        ensures
            r.0 == self.model().start_time,
            r.1 == self.model().duration_millis,
    {
        (self.run_start, self.run_duration)
    }

    /// Lifecycle hook fired once after every dispatched check has either
    /// completed or been determined abandoned: writes the run start time
    /// and duration, each exactly once.
    pub fn record_run_timing(&mut self, start_time: i64, duration_millis: u64)
        requires
            old(self).wf(),
            old(self).model().start_time is None,
            old(self).model().duration_millis is None,
        ensures
            final(self).wf(),
            final(self).model() == timing_step(old(self).model(), start_time, duration_millis),
    {
        self.run_start = Some(start_time);
        self.run_duration = Some(duration_millis);
    }
}

} // verus!
