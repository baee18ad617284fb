use notify_engine::store::{resolve_get, StoreLookup};

#[test]
fn test_get_unknown_id_creates_default() {
    let out = resolve_get(7, StoreLookup::Missing, 500);
    assert_eq!(out.record.id, 7);
    assert!(out.persist_new);
    assert!(out.record.watchlist.is_empty());
    assert!(!out.record.notifications_enabled);
    assert!(out.record.gas_thresholds.is_empty());
    assert_eq!(out.record.created_at, 500);
}

#[test]
fn test_get_twice_same_id_even_across_a_racing_create() {
    // First lookup: the id is unknown, a default record comes back.
    let first = resolve_get(9, StoreLookup::Missing, 600);
    assert_eq!(first.record.id, 9);
    // Second lookup: whether the racing create won (the store now holds a
    // record) or the insert failed (still missing), the caller again gets a
    // record with the same id and no error.
    let second = resolve_get(9, StoreLookup::Found(first.record), 601);
    assert_eq!(second.record.id, 9);
    assert!(!second.persist_new);
    let third = resolve_get(9, StoreLookup::Missing, 602);
    assert_eq!(third.record.id, 9);
}

#[test]
fn test_failed_lookup_still_yields_usable_record() {
    let out = resolve_get(11, StoreLookup::LookupFailed, 700);
    assert_eq!(out.record.id, 11);
    assert!(!out.persist_new);
    assert!(out.record.watchlist.is_empty());
}
