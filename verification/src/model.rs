//! Mathematical model of the shared run state.
//!
//! The executable state keeps ids in vectors of strings; the contracts
//! speak about it through [`StateModel`]: an ordered sequence of known
//! ids, a status map, a failures map and the two run-level timing fields.
//! [`start_step`], [`finish_step`] and [`timing_step`] are the images of
//! the three lifecycle hooks on that model.

use vstd::prelude::*;

use crate::state::{CheckStatus, OutcomeModel};

verus! {

/// The views of a sequence of strings.
pub open spec fn seq_views(s: Seq<String>) -> Seq<Seq<char>> {
    s.map_values(|x: String| x@)
}

/// No id occurs twice.
pub open spec fn unique_ids(s: Seq<Seq<char>>) -> bool {
    forall|i: int, j: int| 0 <= i < j < s.len() ==> s[i] != s[j]
}

/// The map that a sequence of keys and a parallel sequence of values
/// spell out; on unequal lengths the longer tail is ignored.
pub open spec fn keyed_map<T>(keys: Seq<Seq<char>>, vals: Seq<T>) -> Map<Seq<char>, T>
    decreases keys.len(),
{
    if keys.len() == 0 || vals.len() < keys.len() {
        Map::empty()
    } else {
        keyed_map(keys.drop_last(), vals.drop_last()).insert(keys.last(), vals.last())
    }
}

/// A key is in the map exactly when it is among the keys.
pub proof fn lemma_keyed_map_domain<T>(keys: Seq<Seq<char>>, vals: Seq<T>, k: Seq<char>)
    requires
        keys.len() == vals.len(),
    ensures
        keyed_map(keys, vals).contains_key(k) <==> keys.contains(k),
    decreases keys.len(),
{
    if keys.len() > 0 {
        lemma_keyed_map_domain(keys.drop_last(), vals.drop_last(), k);
        if keys.contains(k) {
            let i = choose|i: int| 0 <= i < keys.len() && keys[i] == k;
            if i < keys.len() - 1 {
                assert(keys.drop_last()[i] == k);
            }
        } else {
            assert(forall|i: int| 0 <= i < keys.drop_last().len() ==> keys.drop_last()[i] != k);
        }
    }
}

/// With unique keys, the map sends each key to its parallel value.
pub proof fn lemma_keyed_map_index<T>(keys: Seq<Seq<char>>, vals: Seq<T>, i: int)
    requires
        keys.len() == vals.len(),
        unique_ids(keys),
        0 <= i < keys.len(),
    ensures
        keyed_map(keys, vals).contains_key(keys[i]),
        keyed_map(keys, vals)[keys[i]] == vals[i],
    decreases keys.len(),
{
    if i < keys.len() - 1 {
        lemma_keyed_map_index(keys.drop_last(), vals.drop_last(), i);
    }
}

/// Writing the value at one key's slot is inserting into the map.
pub proof fn lemma_keyed_map_update<T>(keys: Seq<Seq<char>>, vals: Seq<T>, i: int, v: T)
    requires
        keys.len() == vals.len(),
        unique_ids(keys),
        0 <= i < keys.len(),
    ensures
        keyed_map(keys, vals.update(i, v)) == keyed_map(keys, vals).insert(keys[i], v),
    decreases keys.len(),
{
    let n = keys.len() as int;
    if i == n - 1 {
        assert(vals.update(i, v).drop_last() =~= vals.drop_last());
        assert(keyed_map(keys, vals.update(i, v)) =~= keyed_map(keys, vals).insert(keys[i], v));
    } else {
        lemma_keyed_map_update(keys.drop_last(), vals.drop_last(), i, v);
        assert(vals.update(i, v).drop_last() =~= vals.drop_last().update(i, v));
        assert(keyed_map(keys, vals.update(i, v)) =~= keyed_map(keys, vals).insert(keys[i], v));
    }
}

/// Appending a fresh key and its value is inserting into the map.
pub proof fn lemma_keyed_map_push<T>(keys: Seq<Seq<char>>, vals: Seq<T>, k: Seq<char>, v: T)
    requires
        keys.len() == vals.len(),
    ensures
        keyed_map(keys.push(k), vals.push(v)) == keyed_map(keys, vals).insert(k, v),
{
    assert(keys.push(k).drop_last() =~= keys);
    assert(vals.push(v).drop_last() =~= vals);
}

/// The whole shared run state, as mathematics: the known ids in the order
/// they were first seen, their statuses, the failure counts of the checks
/// that finished with issues, and the run-level timing.
pub ghost struct StateModel {
    pub order: Seq<Seq<char>>,
    pub statuses: Map<Seq<char>, CheckStatus>,
    pub failures: Map<Seq<char>, (u64, u64)>,
    pub start_time: Option<i64>,
    pub duration_millis: Option<u64>,
}

impl StateModel {
    /// Internal coherence: the status map is keyed exactly by the ordered
    /// ids, no id occurs twice, and every recorded failure belongs to a
    /// check whose status is terminal with issues.
    pub open spec fn inv(self) -> bool {
        &&& self.statuses.dom() == self.order.to_set()
        &&& unique_ids(self.order)
        &&& forall|k: Seq<char>| #[trigger] self.failures.contains_key(k)
            ==> self.statuses.contains_key(k) && self.statuses[k].is_issue()
    }

    /// The ids that have not reached a terminal status.
    pub open spec fn not_finished(self) -> Set<Seq<char>> {
        self.statuses.dom().filter(|k: Seq<char>| !self.statuses[k].is_terminal())
    }
}

/// Image of `record_start`: the id becomes running; an unknown id is
/// added to the known ids first.
pub open spec fn start_step(m: StateModel, id: Seq<char>) -> StateModel {
    StateModel {
        order: if m.statuses.contains_key(id) { m.order } else { m.order.push(id) },
        statuses: m.statuses.insert(id, CheckStatus::Running),
        failures: m.failures,
        start_time: m.start_time,
        duration_millis: m.duration_millis,
    }
}

/// Image of `record_finish`: the check's status becomes the outcome's
/// terminal status, and a non-success outcome enters the failures map
/// with its counts.
pub open spec fn finish_step(m: StateModel, o: OutcomeModel) -> StateModel {
    StateModel {
        order: m.order,
        statuses: m.statuses.insert(o.id, o.status),
        failures: if o.status == CheckStatus::FinishedSuccessfully {
            m.failures
        } else {
            m.failures.insert(o.id, (o.error_count, o.failure_count))
        },
        start_time: m.start_time,
        duration_millis: m.duration_millis,
    }
}

/// Image of `record_run_timing`: both run-level fields are written.
pub open spec fn timing_step(m: StateModel, start_time: i64, duration_millis: u64) -> StateModel {
    StateModel {
        order: m.order,
        statuses: m.statuses,
        failures: m.failures,
        start_time: Some(start_time),
        duration_millis: Some(duration_millis),
    }
}

/// The ids whose status is not terminal, in the order they are known.
pub open spec fn unfinished_ids(
    order: Seq<Seq<char>>,
    statuses: Map<Seq<char>, CheckStatus>,
) -> Seq<Seq<char>>
    decreases order.len(),
{
    if order.len() == 0 {
        Seq::empty()
    } else {
        let prefix = unfinished_ids(order.drop_last(), statuses);
        if statuses.contains_key(order.last()) && !statuses[order.last()].is_terminal() {
            prefix.push(order.last())
        } else {
            prefix
        }
    }
}

/// The ids whose status is terminal with issues, in the order they are
/// known.
pub open spec fn issue_ids(
    order: Seq<Seq<char>>,
    statuses: Map<Seq<char>, CheckStatus>,
) -> Seq<Seq<char>>
    decreases order.len(),
{
    if order.len() == 0 {
        Seq::empty()
    } else {
        let prefix = issue_ids(order.drop_last(), statuses);
        if statuses.contains_key(order.last()) && statuses[order.last()].is_issue() {
            prefix.push(order.last())
        } else {
            prefix
        }
    }
}

/// An id is among the unfinished ids exactly when it is known and its
/// status is not terminal.
pub proof fn lemma_unfinished_ids_membership(
    order: Seq<Seq<char>>,
    statuses: Map<Seq<char>, CheckStatus>,
    k: Seq<char>,
)
    ensures
        unfinished_ids(order, statuses).contains(k) <==> (order.contains(k)
            && statuses.contains_key(k) && !statuses[k].is_terminal()),
    decreases order.len(),
{
    if order.len() > 0 {
        let prefix = order.drop_last();
        lemma_unfinished_ids_membership(prefix, statuses, k);
        assert(prefix.push(order.last()) =~= order);
        lemma_seq_contains_push(prefix, order.last(), k);
        if statuses.contains_key(order.last()) && !statuses[order.last()].is_terminal() {
            lemma_seq_contains_push(unfinished_ids(prefix, statuses), order.last(), k);
        }
    }
}

/// An id is among the issue ids exactly when it is known and its status
/// is terminal with issues.
pub proof fn lemma_issue_ids_membership(
    order: Seq<Seq<char>>,
    statuses: Map<Seq<char>, CheckStatus>,
    k: Seq<char>,
)
    ensures
        issue_ids(order, statuses).contains(k) <==> (order.contains(k)
            && statuses.contains_key(k) && statuses[k].is_issue()),
    decreases order.len(),
{
    if order.len() > 0 {
        let prefix = order.drop_last();
        lemma_issue_ids_membership(prefix, statuses, k);
        assert(prefix.push(order.last()) =~= order);
        lemma_seq_contains_push(prefix, order.last(), k);
        if statuses.contains_key(order.last()) && statuses[order.last()].is_issue() {
            lemma_seq_contains_push(issue_ids(prefix, statuses), order.last(), k);
        }
    }
}

/// Membership in a sequence extended by one element.
pub proof fn lemma_seq_contains_push(s: Seq<Seq<char>>, x: Seq<char>, y: Seq<char>)
    ensures
        s.push(x).contains(y) <==> (s.contains(y) || x == y),
{
    if s.contains(y) {
        let i = choose|i: int| 0 <= i < s.len() && s[i] == y;
        assert(s.push(x)[i] == y);
    }
    if x == y {
        assert(s.push(x)[s.len() as int] == y);
    }
    if s.push(x).contains(y) {
        let i = choose|i: int| 0 <= i < s.push(x).len() && s.push(x)[i] == y;
        if i < s.len() {
            assert(s[i] == y);
        }
    }
}

/// Recording a start and then a finish for the same id leaves that id
/// outside "not finished" — it no longer appears among the unfinished
/// ids, and appears among the issue ids exactly when the outcome was
/// not a success — and exactly a non-success outcome puts its counts
/// into the failures map.
pub proof fn lemma_start_then_finish(m: StateModel, o: OutcomeModel)
    requires
        o.status.is_terminal(),
        m.statuses.contains_key(o.id) ==> m.order.contains(o.id),
    ensures
        !finish_step(start_step(m, o.id), o).not_finished().contains(o.id),
        o.status != CheckStatus::FinishedSuccessfully ==> finish_step(
            start_step(m, o.id),
            o,
        ).failures[o.id] == (o.error_count, o.failure_count),
        o.status == CheckStatus::FinishedSuccessfully ==> finish_step(
            start_step(m, o.id),
            o,
        ).failures == m.failures,
        ({
            let m2 = finish_step(start_step(m, o.id), o);
            &&& !unfinished_ids(m2.order, m2.statuses).contains(o.id)
            &&& issue_ids(m2.order, m2.statuses).contains(o.id) <==> o.status
                != CheckStatus::FinishedSuccessfully
        }),
{
    let m2 = finish_step(start_step(m, o.id), o);
    assert(m2.order.contains(o.id)) by {
        if !m.statuses.contains_key(o.id) {
            lemma_seq_contains_push(m.order, o.id, o.id);
        }
    }
    lemma_unfinished_ids_membership(m2.order, m2.statuses, o.id);
    lemma_issue_ids_membership(m2.order, m2.statuses, o.id);
}

} // verus!
