//! Exclusion filter: derives the active check set from the catalog's
//! ordered id sequence and a set of exclusion ids.
//!
//! Exclusion is by exact match; an exclusion id absent from the catalog
//! is a no-op, never an error. The active set keeps the catalog's order,
//! and filtering an already-filtered set again with the same exclusions
//! changes nothing.

use vstd::prelude::*;

use crate::model::{lemma_seq_contains_push, seq_views, unique_ids};
use crate::state::find_index;

verus! {

/// The catalog ids minus the excluded ids, in catalog order.
pub open spec fn active_spec(catalog: Seq<Seq<char>>, excluded: Seq<Seq<char>>) -> Seq<Seq<char>>
    decreases catalog.len(),
{
    if catalog.len() == 0 {
        Seq::empty()
    } else {
        let prefix = active_spec(catalog.drop_last(), excluded);
        if excluded.contains(catalog.last()) {
            prefix
        } else {
            prefix.push(catalog.last())
        }
    }
}

/// The active check set: every catalog id that is not excluded, in
/// catalog order.
pub fn active_ids(catalog: &Vec<String>, excluded: &Vec<String>) -> (r: Vec<String>)
    ensures
        seq_views(r@) == active_spec(seq_views(catalog@), seq_views(excluded@)),
{
    let ghost cv = seq_views(catalog@);
    let ghost ev = seq_views(excluded@);
    let mut r: Vec<String> = Vec::new();
    let mut i: usize = 0;
    while i < catalog.len()
        invariant
            i <= catalog@.len(),
            cv == seq_views(catalog@),
            ev == seq_views(excluded@),
            seq_views(r@) == active_spec(cv.take(i as int), ev),
        decreases catalog@.len() - i,
    {
        let ghost r_old = r@;
        match find_index(excluded, &catalog[i]) {
            Some(j) => {
                proof {
                    assert(ev[j as int] == catalog@[i as int]@);
                    assert(ev.contains(cv[i as int]));
                }
            },
            None => {
                r.push(catalog[i].clone());
                proof {
                    assert(forall|j: int| 0 <= j < ev.len() ==> ev[j] != cv[i as int]);
                    assert(!ev.contains(cv[i as int]));
                    assert(seq_views(r@) =~= seq_views(r_old).push(cv[i as int]));
                }
            },
        }
        proof {
            assert(cv.take(i + 1).drop_last() =~= cv.take(i as int));
            assert(cv.take(i + 1).last() == cv[i as int]);
            assert(seq_views(r@) == active_spec(cv.take(i + 1), ev));
        }
        i += 1;
    }
    proof {
        assert(cv.take(cv.len() as int) =~= cv);
    }
    r
}

/// The first occurrence of each id, in order.
pub open spec fn dedup_ids(s: Seq<Seq<char>>) -> Seq<Seq<char>>
    decreases s.len(),
{
    if s.len() == 0 {
        Seq::empty()
    } else {
        let prefix = dedup_ids(s.drop_last());
        if s.drop_last().contains(s.last()) {
            prefix
        } else {
            prefix.push(s.last())
        }
    }
}

/// Keeping first occurrences loses no id and invents none.
pub proof fn lemma_dedup_membership(s: Seq<Seq<char>>, k: Seq<char>)
    ensures
        dedup_ids(s).contains(k) <==> s.contains(k),
    decreases s.len(),
{
    if s.len() > 0 {
        let prefix = s.drop_last();
        lemma_dedup_membership(prefix, k);
        assert(prefix.push(s.last()) =~= s);
        lemma_seq_contains_push(prefix, s.last(), k);
        if !prefix.contains(s.last()) {
            lemma_seq_contains_push(dedup_ids(prefix), s.last(), k);
        }
    }
}

/// Keeping first occurrences leaves no id twice.
pub proof fn lemma_dedup_unique(s: Seq<Seq<char>>)
    ensures
        unique_ids(dedup_ids(s)),
    decreases s.len(),
{
    if s.len() > 0 {
        let prefix = s.drop_last();
        lemma_dedup_unique(prefix);
        let d = dedup_ids(prefix);
        if !prefix.contains(s.last()) {
            assert(!d.contains(s.last())) by {
                lemma_dedup_membership(prefix, s.last());
            }
            assert forall|i: int, j: int|
                0 <= i < j < d.push(s.last()).len() implies d.push(s.last())[i] != d.push(
                s.last(),
            )[j] by {
                if j < d.len() {
                    assert(d[i] != d[j]);
                } else {
                    assert(d.contains(d[i]));
                }
            }
        }
    }
}

/// The unique ids of a list, first occurrences first.
pub fn dedup_id_list(v: &Vec<String>) -> (r: Vec<String>)
    ensures
        seq_views(r@) == dedup_ids(seq_views(v@)),
        unique_ids(seq_views(r@)),
{
    let ghost sv = seq_views(v@);
    let mut r: Vec<String> = Vec::new();
    let mut i: usize = 0;
    while i < v.len()
        invariant
            i <= v@.len(),
            sv == seq_views(v@),
            seq_views(r@) == dedup_ids(sv.take(i as int)),
        decreases v@.len() - i,
    {
        let ghost r_old = r@;
        proof {
            lemma_dedup_membership(sv.take(i as int), sv[i as int]);
        }
        match find_index(&r, &v[i]) {
            Some(j) => {
                proof {
                    assert(seq_views(r_old)[j as int] == sv[i as int]);
                    assert(seq_views(r_old).contains(sv[i as int]));
                    assert(sv.take(i as int).contains(sv[i as int]));
                }
            },
            None => {
                proof {
                    assert(forall|j: int| 0 <= j < r_old.len() ==> seq_views(r_old)[j]
                        != sv[i as int]);
                    assert(!seq_views(r_old).contains(sv[i as int]));
                    assert(!sv.take(i as int).contains(sv[i as int]));
                }
                r.push(v[i].clone());
                proof {
                    assert(seq_views(r@) =~= seq_views(r_old).push(sv[i as int]));
                }
            },
        }
        proof {
            assert(sv.take(i + 1).drop_last() =~= sv.take(i as int));
            assert(sv.take(i + 1).last() == sv[i as int]);
        }
        i += 1;
    }
    proof {
        assert(sv.take(sv.len() as int) =~= sv);
        lemma_dedup_unique(sv);
    }
    r
}

/// Whether no id occurs twice in the list.
pub fn ids_unique(v: &Vec<String>) -> (r: bool)
    ensures
        r == unique_ids(seq_views(v@)),
{
    let mut i: usize = 0;
    while i < v.len()
        invariant
            i <= v@.len(),
            forall|a: int, b: int| 0 <= a < b < i ==> v@[a]@ != v@[b]@,
        decreases v@.len() - i,
    {
        let mut j: usize = 0;
        while j < i
            invariant
                j <= i < v@.len(),
                forall|a: int| 0 <= a < j ==> v@[a]@ != v@[i as int]@,
            decreases i - j,
        {
            if v[j] == v[i] {
                proof {
                    assert(seq_views(v@)[j as int] == seq_views(v@)[i as int]);
                }
                return false;
            }
            j += 1;
        }
        i += 1;
    }
    true
}

/// The active set is the set difference of catalog and exclusions: an id
/// is active exactly when the catalog holds it and the exclusions do
/// not.
pub proof fn lemma_active_is_subtraction(
    catalog: Seq<Seq<char>>,
    excluded: Seq<Seq<char>>,
    id: Seq<char>,
)
    ensures
        active_spec(catalog, excluded).contains(id) <==> (catalog.contains(id)
            && !excluded.contains(id)),
    decreases catalog.len(),
{
    if catalog.len() > 0 {
        let prefix = catalog.drop_last();
        lemma_active_is_subtraction(prefix, excluded, id);
        lemma_seq_contains_push(prefix, catalog.last(), id);
        assert(prefix.push(catalog.last()) =~= catalog);
        if !excluded.contains(catalog.last()) {
            lemma_seq_contains_push(active_spec(prefix, excluded), catalog.last(), id);
        }
    }
}

/// A catalog none of whose ids is excluded is left whole.
proof fn lemma_active_all_kept(catalog: Seq<Seq<char>>, excluded: Seq<Seq<char>>)
    requires
        forall|i: int| 0 <= i < catalog.len() ==> !excluded.contains(#[trigger] catalog[i]),
    ensures
        active_spec(catalog, excluded) == catalog,
    decreases catalog.len(),
{
    if catalog.len() > 0 {
        let prefix = catalog.drop_last();
        assert(forall|i: int| 0 <= i < prefix.len() ==> prefix[i] == catalog[i]);
        lemma_active_all_kept(prefix, excluded);
        assert(catalog.last() == catalog[catalog.len() - 1]);
        assert(active_spec(catalog, excluded) =~= catalog);
    }
}

/// Filtering is idempotent: applying the same exclusions to an already
/// filtered set changes nothing.
pub proof fn lemma_active_idempotent(catalog: Seq<Seq<char>>, excluded: Seq<Seq<char>>)
    ensures
        active_spec(active_spec(catalog, excluded), excluded) == active_spec(catalog, excluded),
{
    let active = active_spec(catalog, excluded);
    assert forall|i: int| 0 <= i < active.len() implies !excluded.contains(
        #[trigger] active[i],
    ) by {
        assert(active.contains(active[i]));
        lemma_active_is_subtraction(catalog, excluded, active[i]);
    }
    lemma_active_all_kept(active, excluded);
}

/// An exclusion id absent from the catalog is a no-op.
pub proof fn lemma_absent_exclusion_is_noop(
    catalog: Seq<Seq<char>>,
    excluded: Seq<Seq<char>>,
    id: Seq<char>,
)
    requires
        !catalog.contains(id),
    ensures
        active_spec(catalog, excluded.push(id)) == active_spec(catalog, excluded),
    decreases catalog.len(),
{
    if catalog.len() > 0 {
        let prefix = catalog.drop_last();
        assert forall|i: int| 0 <= i < prefix.len() implies prefix[i] != id by {
            assert(catalog[i] == prefix[i]);
        }
        assert(!prefix.contains(id));
        lemma_absent_exclusion_is_noop(prefix, excluded, id);
        assert(catalog.contains(catalog.last())) by {
            assert(catalog[catalog.len() - 1] == catalog.last());
        }
        lemma_seq_contains_push(excluded, id, catalog.last());
    }
}

/// A catalog without duplicate ids yields an active set without
/// duplicate ids.
pub proof fn lemma_active_unique(catalog: Seq<Seq<char>>, excluded: Seq<Seq<char>>)
    requires
        unique_ids(catalog),
    ensures
        unique_ids(active_spec(catalog, excluded)),
    decreases catalog.len(),
{
    if catalog.len() > 0 {
        let prefix = catalog.drop_last();
        assert(forall|i: int| 0 <= i < prefix.len() ==> prefix[i] == catalog[i]);
        lemma_active_unique(prefix, excluded);
        let a = active_spec(prefix, excluded);
        if !excluded.contains(catalog.last()) {
            assert(!a.contains(catalog.last())) by {
                lemma_active_is_subtraction(prefix, excluded, catalog.last());
                if prefix.contains(catalog.last()) {
                    let i = choose|i: int|
                        0 <= i < prefix.len() && prefix[i] == catalog.last();
                    assert(catalog[i] == catalog[catalog.len() - 1]);
                }
            }
            assert forall|i: int, j: int|
                0 <= i < j < a.push(catalog.last()).len() implies a.push(catalog.last())[i]
                != a.push(catalog.last())[j] by {
                if j < a.len() {
                    assert(a[i] != a[j]);
                } else {
                    assert(a.contains(a[i]));
                }
            }
        }
    }
}

/// Only membership in the exclusions matters: exclusion lists with the
/// same members, in whatever order and multiplicity, yield the same
/// active set.
pub proof fn lemma_exclusions_are_a_set(
    catalog: Seq<Seq<char>>,
    excluded_a: Seq<Seq<char>>,
    excluded_b: Seq<Seq<char>>,
)
    requires
        forall|k: Seq<char>| excluded_a.contains(k) <==> excluded_b.contains(k),
    ensures
        active_spec(catalog, excluded_a) == active_spec(catalog, excluded_b),
    decreases catalog.len(),
{
    if catalog.len() > 0 {
        lemma_exclusions_are_a_set(catalog.drop_last(), excluded_a, excluded_b);
    }
}

} // verus!
