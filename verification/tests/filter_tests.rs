use verifier_runner::filter::{active_ids, dedup_id_list, ids_unique};

fn ids(v: &[&str]) -> Vec<String> {
    v.iter().map(|s| s.to_string()).collect()
}

#[test]
fn filtering_subtracts_exclusions_in_order() {
    let catalog = ids(&["02.01", "02.02", "05.05"]);
    let excluded = ids(&["05.05"]);
    let active = active_ids(&catalog, &excluded);
    assert_eq!(active, ids(&["02.01", "02.02"]));
}

#[test]
fn filtering_keeps_catalog_order_with_interleaved_exclusions() {
    let catalog = ids(&["01.01", "02.01", "03.01", "04.01", "05.01"]);
    let excluded = ids(&["02.01", "04.01"]);
    let active = active_ids(&catalog, &excluded);
    assert_eq!(active, ids(&["01.01", "03.01", "05.01"]));
}

#[test]
fn filtering_is_idempotent() {
    let catalog = ids(&["02.01", "02.02", "05.05", "06.01"]);
    let excluded = ids(&["02.02", "06.01"]);
    let once = active_ids(&catalog, &excluded);
    let twice = active_ids(&once, &excluded);
    assert_eq!(once, twice);
}

#[test]
fn exclusion_absent_from_catalog_is_a_noop() {
    let catalog = ids(&["02.01", "02.02"]);
    let without = active_ids(&catalog, &ids(&[]));
    let with_absent = active_ids(&catalog, &ids(&["99.99"]));
    assert_eq!(without, with_absent);
    assert_eq!(with_absent, catalog);
}

#[test]
fn exclusions_act_as_a_set() {
    let catalog = ids(&["01.01", "02.01", "03.01"]);
    let a = active_ids(&catalog, &ids(&["02.01", "03.01"]));
    let b = active_ids(&catalog, &ids(&["03.01", "02.01", "03.01"]));
    assert_eq!(a, b);
    assert_eq!(a, ids(&["01.01"]));
}

#[test]
fn empty_catalog_yields_empty_active_set() {
    let active = active_ids(&ids(&[]), &ids(&["02.01"]));
    assert!(active.is_empty());
}

#[test]
fn excluding_everything_yields_empty_active_set() {
    let catalog = ids(&["02.01", "02.02"]);
    let active = active_ids(&catalog, &catalog);
    assert!(active.is_empty());
}

#[test]
fn uniqueness_check_tells_duplicates_apart() {
    assert!(ids_unique(&ids(&[])));
    assert!(ids_unique(&ids(&["01.01", "02.01"])));
    assert!(!ids_unique(&ids(&["01.01", "02.01", "01.01"])));
}

#[test]
fn dedup_keeps_first_occurrences_in_order() {
    assert_eq!(
        dedup_id_list(&ids(&["02.01", "05.05", "02.01", "05.05"])),
        ids(&["02.01", "05.05"])
    );
    assert_eq!(dedup_id_list(&ids(&[])), ids(&[]));
}
