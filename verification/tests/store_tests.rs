use sitewatch::models::change::Change;
use sitewatch::models::site::{NewSite, Site};
use sitewatch::models::snapshot::Snapshot;
use sitewatch::store::{
    contains_site, create_site, create_site_at, get_changes, get_site, get_sites, get_snapshots,
    last_snapshot, mark_checked, record_poll_result, record_poll_result_at, Store, StoreError,
};

const T0: &str = "2024-01-01T00:00:00+00:00";
const T1: &str = "2024-01-01T00:01:00+00:00";
const T2: &str = "2024-01-01T00:02:00+00:00";

fn new_site(url: &str, interval: i64) -> NewSite {
    NewSite { url: url.to_string(), selector: None, check_interval_seconds: interval }
}

fn site_row(id: i64, url: &str) -> Site {
    Site {
        id,
        url: url.to_string(),
        selector: None,
        check_interval_seconds: 60,
        created_at: T0.to_string(),
        last_checked_at: None,
        last_snapshot_id: None,
    }
}

fn snapshot_row(id: i64, site_id: i64, content: &str) -> Snapshot {
    Snapshot {
        id,
        site_id,
        created_at: T1.to_string(),
        content_hash: format!("hash of {}", content),
        content: content.to_string(),
    }
}

fn change_row(id: i64, site_id: i64, old: Option<i64>, new: i64) -> Change {
    Change {
        id,
        site_id,
        old_snapshot_id: old,
        new_snapshot_id: new,
        created_at: T1.to_string(),
        summary: "summary".to_string(),
    }
}

#[test]
fn new_store_is_empty() {
    let store = Store::new();
    assert!(get_sites(&store).is_empty());
    assert!(get_snapshots(&store).is_empty());
    assert!(get_changes(&store).is_empty());
    assert!(!contains_site(&store, 1));
}

#[test]
fn new_site_validity() {
    assert!(new_site("https://example.com/a", 1).is_valid());
    assert!(new_site("https://example.com/a", 60).is_valid());
    assert!(!new_site("https://example.com/a", 0).is_valid());
    assert!(!new_site("https://example.com/a", -5).is_valid());
}

#[test]
fn created_site_has_given_fields_and_no_pointers() {
    let mut store = Store::new();
    let new = NewSite {
        url: "https://example.com/a".to_string(),
        selector: Some("#main".to_string()),
        check_interval_seconds: 60,
    };
    let site = create_site_at(&mut store, new, T0).unwrap();
    assert_eq!(site.id, 1);
    assert_eq!(site.url, "https://example.com/a");
    assert_eq!(site.selector, Some("#main".to_string()));
    assert_eq!(site.check_interval_seconds, 60);
    assert_eq!(site.created_at, T0);
    assert_eq!(site.last_checked_at, None);
    assert_eq!(site.last_snapshot_id, None);
}

#[test]
fn identifiers_ascend_from_one() {
    let mut store = Store::new();
    let a = create_site_at(&mut store, new_site("https://example.com/a", 60), T0).unwrap();
    let b = create_site_at(&mut store, new_site("https://example.com/b", 30), T0).unwrap();
    let c = create_site_at(&mut store, new_site("https://example.com/c", 1), T1).unwrap();
    assert_eq!((a.id, b.id, c.id), (1, 2, 3));
    let ids: Vec<i64> = get_sites(&store).iter().map(|s| s.id).collect();
    assert_eq!(ids, vec![1, 2, 3]);
}

#[test]
fn duplicate_url_is_refused_and_changes_nothing() {
    let mut store = Store::new();
    create_site_at(&mut store, new_site("https://example.com/a", 60), T0).unwrap();
    let again = create_site_at(&mut store, new_site("https://example.com/a", 10), T1);
    assert_eq!(again.unwrap_err(), StoreError::DuplicateUrl);
    let sites = get_sites(&store);
    assert_eq!(sites.len(), 1);
    assert_eq!(sites[0].check_interval_seconds, 60);
    assert_eq!(sites[0].created_at, T0);
}

#[test]
fn get_site_finds_or_reports_not_found() {
    let mut store = Store::new();
    create_site_at(&mut store, new_site("https://example.com/a", 60), T0).unwrap();
    create_site_at(&mut store, new_site("https://example.com/b", 61), T0).unwrap();
    let b = get_site(&store, 2).unwrap();
    assert_eq!(b.url, "https://example.com/b");
    assert_eq!(b.check_interval_seconds, 61);
    assert_eq!(get_site(&store, 3).unwrap_err(), StoreError::NotFound);
    assert_eq!(get_site(&store, 0).unwrap_err(), StoreError::NotFound);
    assert_eq!(get_site(&store, -1).unwrap_err(), StoreError::NotFound);
    assert!(contains_site(&store, 1));
    assert!(!contains_site(&store, 3));
}

#[test]
fn create_site_stamps_the_current_time() {
    let mut store = Store::new();
    let site = create_site(&mut store, new_site("https://example.com/a", 60)).unwrap();
    assert_eq!(site.id, 1);
    let mut stamped = site_row(1, "https://example.com/a");
    stamped.last_checked_at = Some(site.created_at.clone());
    assert!(sitewatch::scheduler::last_checked(&stamped).unwrap() > 1_600_000_000);
    assert_eq!(get_site(&store, 1).unwrap().created_at, site.created_at);
}

#[test]
fn first_record_is_a_baseline_change() {
    let mut store = Store::new();
    create_site_at(&mut store, new_site("https://example.com/a", 60), T0).unwrap();
    let change = record_poll_result_at(
        &mut store,
        1,
        "v1".to_string(),
        "h1".to_string(),
        "baseline captured".to_string(),
        T1,
    )
    .unwrap();
    assert_eq!(change.id, 1);
    assert_eq!(change.site_id, 1);
    assert_eq!(change.old_snapshot_id, None);
    assert_eq!(change.new_snapshot_id, 1);
    assert_eq!(change.created_at, T1);
    assert_eq!(change.summary, "baseline captured");
    let snapshots = get_snapshots(&store);
    assert_eq!(snapshots.len(), 1);
    assert_eq!(snapshots[0].id, 1);
    assert_eq!(snapshots[0].site_id, 1);
    assert_eq!(snapshots[0].content, "v1");
    assert_eq!(snapshots[0].content_hash, "h1");
    assert_eq!(snapshots[0].created_at, T1);
    let site = get_site(&store, 1).unwrap();
    assert_eq!(site.last_snapshot_id, Some(1));
    assert_eq!(site.last_checked_at, Some(T1.to_string()));
    assert_eq!(site.created_at, T0);
}

#[test]
fn later_record_links_old_and_new_snapshot() {
    let mut store = Store::new();
    create_site_at(&mut store, new_site("https://example.com/a", 60), T0).unwrap();
    create_site_at(&mut store, new_site("https://example.com/b", 60), T0).unwrap();
    record_poll_result_at(&mut store, 1, "a1".into(), "ha1".into(), "s".into(), T1).unwrap();
    record_poll_result_at(&mut store, 2, "b1".into(), "hb1".into(), "s".into(), T1).unwrap();
    let change =
        record_poll_result_at(&mut store, 1, "a2".into(), "ha2".into(), "s2".into(), T2).unwrap();
    assert_eq!(change.id, 3);
    assert_eq!(change.old_snapshot_id, Some(1));
    assert_eq!(change.new_snapshot_id, 3);
    assert_eq!(get_site(&store, 1).unwrap().last_snapshot_id, Some(3));
    assert_eq!(get_site(&store, 2).unwrap().last_snapshot_id, Some(2));
    assert_eq!(get_site(&store, 2).unwrap().last_checked_at, Some(T1.to_string()));
    let changes = get_changes(&store);
    assert_eq!(changes.len(), 3);
    assert_eq!(changes[1].old_snapshot_id, None);
    assert_eq!(changes[1].site_id, 2);
    assert_eq!(last_snapshot(&store, 1).unwrap().content, "a2");
    assert_eq!(last_snapshot(&store, 2).unwrap().content, "b1");
}

#[test]
fn record_for_unknown_site_is_not_found_and_changes_nothing() {
    let mut store = Store::new();
    create_site_at(&mut store, new_site("https://example.com/a", 60), T0).unwrap();
    let result = record_poll_result_at(&mut store, 9, "c".into(), "h".into(), "s".into(), T1);
    assert_eq!(result.unwrap_err(), StoreError::NotFound);
    assert!(get_snapshots(&store).is_empty());
    assert!(get_changes(&store).is_empty());
    assert_eq!(get_site(&store, 1).unwrap().last_checked_at, None);
}

#[test]
fn record_poll_result_stamps_the_current_time() {
    let mut store = Store::new();
    create_site_at(&mut store, new_site("https://example.com/a", 60), T0).unwrap();
    let change =
        record_poll_result(&mut store, 1, "v1".into(), "h1".into(), "baseline captured".into())
            .unwrap();
    let site = get_site(&store, 1).unwrap();
    assert!(sitewatch::scheduler::last_checked(&site).unwrap() > 1_600_000_000);
    assert_eq!(site.last_checked_at, Some(change.created_at.clone()));
    assert_eq!(get_snapshots(&store)[0].created_at, change.created_at);
}

#[test]
fn mark_checked_touches_only_the_time() {
    let mut store = Store::new();
    create_site_at(&mut store, new_site("https://example.com/a", 60), T0).unwrap();
    record_poll_result_at(&mut store, 1, "v1".into(), "h1".into(), "s".into(), T1).unwrap();
    assert_eq!(mark_checked(&mut store, 1, T2), Ok(()));
    let site = get_site(&store, 1).unwrap();
    assert_eq!(site.last_checked_at, Some(T2.to_string()));
    assert_eq!(site.last_snapshot_id, Some(1));
    assert_eq!(get_snapshots(&store).len(), 1);
    assert_eq!(get_changes(&store).len(), 1);
    assert_eq!(mark_checked(&mut store, 5, T2), Err(StoreError::NotFound));
}

#[test]
fn last_snapshot_of_site_without_snapshot_is_none() {
    let mut store = Store::new();
    create_site_at(&mut store, new_site("https://example.com/a", 60), T0).unwrap();
    assert!(last_snapshot(&store, 1).is_none());
    assert!(last_snapshot(&store, 2).is_none());
}

#[test]
fn consistent_rows_are_accepted() {
    let mut first = site_row(1, "https://example.com/a");
    first.last_checked_at = Some(T1.to_string());
    first.last_snapshot_id = Some(5);
    let second = site_row(4, "https://example.com/b");
    let store = Store::from_rows(
        vec![first, second],
        vec![snapshot_row(2, 1, "v1"), snapshot_row(5, 1, "v2")],
        vec![change_row(1, 1, None, 2), change_row(2, 1, Some(2), 5)],
    )
    .unwrap();
    assert_eq!(get_sites(&store).len(), 2);
    assert_eq!(last_snapshot(&store, 1).unwrap().id, 5);
    assert!(last_snapshot(&store, 4).is_none());
}

#[test]
fn rows_restored_continue_the_identifiers() {
    let mut first = site_row(3, "https://example.com/a");
    first.last_checked_at = Some(T1.to_string());
    first.last_snapshot_id = Some(7);
    let mut store = Store::from_rows(
        vec![first],
        vec![snapshot_row(7, 3, "v1")],
        vec![change_row(2, 3, None, 7)],
    )
    .unwrap();
    let site = create_site_at(&mut store, new_site("https://example.com/b", 60), T2).unwrap();
    assert_eq!(site.id, 4);
    let change =
        record_poll_result_at(&mut store, 3, "v2".into(), "h2".into(), "s".into(), T2).unwrap();
    assert_eq!(change.id, 3);
    assert_eq!(change.new_snapshot_id, 8);
    assert_eq!(change.old_snapshot_id, Some(7));
}

#[test]
fn inconsistent_rows_are_refused() {
    // identifiers out of order
    assert!(Store::from_rows(
        vec![site_row(2, "https://example.com/a"), site_row(1, "https://example.com/b")],
        vec![],
        vec![]
    )
    .is_none());
    // identifier below one
    assert!(Store::from_rows(vec![site_row(0, "https://example.com/a")], vec![], vec![]).is_none());
    // URL twice
    assert!(Store::from_rows(
        vec![site_row(1, "https://example.com/a"), site_row(2, "https://example.com/a")],
        vec![],
        vec![]
    )
    .is_none());
    // interval below one
    let mut idle = site_row(1, "https://example.com/a");
    idle.check_interval_seconds = 0;
    assert!(Store::from_rows(vec![idle], vec![], vec![]).is_none());
    // snapshot of an unknown site
    assert!(Store::from_rows(
        vec![site_row(1, "https://example.com/a")],
        vec![snapshot_row(1, 2, "v1")],
        vec![change_row(1, 2, None, 1)]
    )
    .is_none());
    // pointer does not name the last snapshot
    let mut stale = site_row(1, "https://example.com/a");
    stale.last_checked_at = Some(T1.to_string());
    stale.last_snapshot_id = Some(1);
    assert!(Store::from_rows(
        vec![stale],
        vec![snapshot_row(1, 1, "v1"), snapshot_row(2, 1, "v2")],
        vec![change_row(1, 1, None, 1), change_row(2, 1, Some(1), 2)]
    )
    .is_none());
    // pointer set, never checked
    let mut unchecked = site_row(1, "https://example.com/a");
    unchecked.last_snapshot_id = Some(1);
    assert!(Store::from_rows(
        vec![unchecked],
        vec![snapshot_row(1, 1, "v1")],
        vec![change_row(1, 1, None, 1)]
    )
    .is_none());
    // snapshot without change
    let mut pointing = site_row(1, "https://example.com/a");
    pointing.last_checked_at = Some(T1.to_string());
    pointing.last_snapshot_id = Some(1);
    assert!(Store::from_rows(vec![pointing], vec![snapshot_row(1, 1, "v1")], vec![]).is_none());
}

#[test]
fn change_with_wrong_links_is_refused() {
    let pointing = || {
        let mut site = site_row(1, "https://example.com/a");
        site.last_checked_at = Some(T1.to_string());
        site.last_snapshot_id = Some(2);
        site
    };
    let snapshots = || vec![snapshot_row(1, 1, "v1"), snapshot_row(2, 1, "v2")];
    // the old snapshot must be the one before
    assert!(Store::from_rows(
        vec![pointing()],
        snapshots(),
        vec![change_row(1, 1, None, 1), change_row(2, 1, None, 2)]
    )
    .is_none());
    // the new snapshot must be the one at the same place
    assert!(Store::from_rows(
        vec![pointing()],
        snapshots(),
        vec![change_row(1, 1, None, 1), change_row(2, 1, Some(1), 1)]
    )
    .is_none());
    // change identifiers ascend
    assert!(Store::from_rows(
        vec![pointing()],
        snapshots(),
        vec![change_row(2, 1, None, 1), change_row(2, 1, Some(1), 2)]
    )
    .is_none());
    assert!(Store::from_rows(
        vec![pointing()],
        snapshots(),
        vec![change_row(1, 1, None, 1), change_row(2, 1, Some(1), 2)]
    )
    .is_some());
}

#[test]
fn exhausted_site_identifiers_are_a_storage_failure() {
    let mut store =
        Store::from_rows(vec![site_row(i64::MAX, "https://example.com/a")], vec![], vec![]).unwrap();
    let result = create_site_at(&mut store, new_site("https://example.com/b", 60), T1);
    assert_eq!(result.unwrap_err(), StoreError::StorageFailure);
    assert_eq!(get_sites(&store).len(), 1);
    // a duplicate is still reported as a duplicate
    let result = create_site_at(&mut store, new_site("https://example.com/a", 60), T1);
    assert_eq!(result.unwrap_err(), StoreError::DuplicateUrl);
}

#[test]
fn exhausted_snapshot_identifiers_are_a_storage_failure() {
    let mut site = site_row(1, "https://example.com/a");
    site.last_checked_at = Some(T1.to_string());
    site.last_snapshot_id = Some(i64::MAX);
    let mut store = Store::from_rows(
        vec![site],
        vec![snapshot_row(i64::MAX, 1, "v1")],
        vec![change_row(1, 1, None, i64::MAX)],
    )
    .unwrap();
    let result = record_poll_result_at(&mut store, 1, "v2".into(), "h2".into(), "s".into(), T2);
    assert_eq!(result.unwrap_err(), StoreError::StorageFailure);
    assert_eq!(get_snapshots(&store).len(), 1);
    assert_eq!(get_changes(&store).len(), 1);
    let site = get_site(&store, 1).unwrap();
    assert_eq!(site.last_snapshot_id, Some(i64::MAX));
    assert_eq!(site.last_checked_at, Some(T1.to_string()));
    // an unknown site is still reported as unknown
    let result = record_poll_result_at(&mut store, 2, "v2".into(), "h2".into(), "s".into(), T2);
    assert_eq!(result.unwrap_err(), StoreError::NotFound);
}

#[test]
fn pointers_and_changes_resolve() {
    let mut store = Store::new();
    for url in ["https://example.com/a", "https://example.com/b", "https://example.com/c"] {
        create_site_at(&mut store, new_site(url, 60), T0).unwrap();
    }
    for (site_id, content) in [(2, "b1"), (1, "a1"), (2, "b2"), (2, "b3"), (1, "a2")] {
        record_poll_result_at(
            &mut store,
            site_id,
            content.to_string(),
            format!("hash of {}", content),
            "s".to_string(),
            T1,
        )
        .unwrap();
    }
    let snapshots = get_snapshots(&store);
    let changes = get_changes(&store);
    assert_eq!(snapshots.len(), 5);
    assert_eq!(changes.len(), 5);
    for site in get_sites(&store) {
        match site.last_snapshot_id {
            Some(id) => {
                let target = snapshots.iter().find(|s| s.id == id).unwrap();
                assert_eq!(target.site_id, site.id);
                let newest = snapshots.iter().filter(|s| s.site_id == site.id).last().unwrap();
                assert_eq!(newest.id, id);
            }
            None => assert!(snapshots.iter().all(|s| s.site_id != site.id)),
        }
    }
    for change in &changes {
        let new = snapshots.iter().find(|s| s.id == change.new_snapshot_id).unwrap();
        assert_eq!(new.site_id, change.site_id);
        if let Some(old_id) = change.old_snapshot_id {
            let old = snapshots.iter().find(|s| s.id == old_id).unwrap();
            assert_eq!(old.site_id, change.site_id);
            assert!(old.id < new.id);
        }
    }
    let old_ids: Vec<Option<i64>> = changes.iter().map(|c| c.old_snapshot_id).collect();
    assert_eq!(old_ids, vec![None, None, Some(1), Some(3), Some(2)]);
    // what the operations leave is accepted as consistent
    assert!(Store::from_rows(get_sites(&store), snapshots, changes).is_some());
}

#[test]
fn copies_of_rows_are_equal_field_by_field() {
    let site = Site {
        id: 3,
        url: "https://example.com/a".to_string(),
        selector: Some("#main".to_string()),
        check_interval_seconds: 60,
        created_at: T0.to_string(),
        last_checked_at: Some(T1.to_string()),
        last_snapshot_id: Some(9),
    };
    let copy = site.clone();
    assert_eq!(format!("{:?}", copy), format!("{:?}", site));
    let snapshot = snapshot_row(9, 3, "content");
    assert_eq!(format!("{:?}", snapshot.clone()), format!("{:?}", snapshot));
    let change = change_row(4, 3, Some(2), 9);
    assert_eq!(format!("{:?}", change.clone()), format!("{:?}", change));
}
