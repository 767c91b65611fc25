use sitewatch::diff::Outcome;
use sitewatch::fingerprint::fingerprint_hex;
use sitewatch::models::site::NewSite;
use sitewatch::poll::poll_at;
use sitewatch::store::{
    create_site_at, get_changes, get_site, get_snapshots, Store, StoreError,
};

const T0: &str = "2024-01-01T00:00:00+00:00";
const T1: &str = "2024-01-01T00:01:00+00:00";
const T2: &str = "2024-01-01T00:01:30+00:00";
const T3: &str = "2024-01-01T00:02:30+00:00";

fn store_with_site(url: &str, interval: i64) -> Store {
    let mut store = Store::new();
    let new = NewSite { url: url.to_string(), selector: None, check_interval_seconds: interval };
    create_site_at(&mut store, new, T0).unwrap();
    store
}

#[test]
fn three_polls_of_one_site() {
    let mut store = store_with_site("https://example.com/a", 60);
    let h1 = fingerprint_hex(b"v1");
    let h2 = fingerprint_hex(b"v2");

    // first poll: baseline
    let first = poll_at(&mut store, 1, "v1".to_string(), T1).unwrap();
    assert_eq!(first.outcome, Outcome::Baseline);
    let snapshots = get_snapshots(&store);
    assert_eq!(snapshots.len(), 1);
    assert_eq!(snapshots[0].content, "v1");
    assert_eq!(snapshots[0].content_hash, h1);
    assert_eq!(snapshots[0].site_id, 1);
    let changes = get_changes(&store);
    assert_eq!(changes.len(), 1);
    assert_eq!(changes[0].old_snapshot_id, None);
    assert_eq!(changes[0].new_snapshot_id, snapshots[0].id);
    assert_eq!(changes[0].summary, "baseline captured");
    let change = first.change.unwrap();
    assert_eq!(change.id, changes[0].id);
    assert_eq!(change.old_snapshot_id, None);

    // second poll, thirty seconds later, same content: nothing written
    let second = poll_at(&mut store, 1, "v1".to_string(), T2).unwrap();
    assert_eq!(second.outcome, Outcome::Unchanged);
    assert!(second.change.is_none());
    assert_eq!(get_snapshots(&store).len(), 1);
    assert_eq!(get_changes(&store).len(), 1);
    let site = get_site(&store, 1).unwrap();
    assert_eq!(site.last_checked_at, Some(T2.to_string()));
    assert_eq!(site.last_snapshot_id, Some(snapshots[0].id));

    // third poll: new content
    let third = poll_at(&mut store, 1, "v2".to_string(), T3).unwrap();
    assert_eq!(third.outcome, Outcome::Changed);
    let snapshots = get_snapshots(&store);
    assert_eq!(snapshots.len(), 2);
    assert_eq!(snapshots[1].content, "v2");
    assert_eq!(snapshots[1].content_hash, h2);
    let changes = get_changes(&store);
    assert_eq!(changes.len(), 2);
    assert_eq!(changes[1].old_snapshot_id, Some(snapshots[0].id));
    assert_eq!(changes[1].new_snapshot_id, snapshots[1].id);
    assert_eq!(changes[1].summary, "content changed: 2 -> 2 bytes, 1 -> 1 lines");
    let site = get_site(&store, 1).unwrap();
    assert_eq!(site.last_snapshot_id, Some(snapshots[1].id));
    assert_eq!(site.last_checked_at, Some(T3.to_string()));
}

#[test]
fn first_poll_writes_one_snapshot_and_one_baseline_change() {
    let mut store = store_with_site("https://example.com/a", 60);
    let report = poll_at(&mut store, 1, "hello\nworld\n".to_string(), T1).unwrap();
    assert_eq!(report.outcome, Outcome::Baseline);
    assert_eq!(get_snapshots(&store).len(), 1);
    assert_eq!(get_changes(&store).len(), 1);
    let change = report.change.unwrap();
    assert_eq!(change.old_snapshot_id, None);
    assert_eq!(change.new_snapshot_id, 1);
    assert_eq!(change.site_id, 1);
    assert_eq!(change.created_at, T1);
}

#[test]
fn repeated_poll_with_same_content_writes_nothing() {
    let mut store = store_with_site("https://example.com/a", 60);
    poll_at(&mut store, 1, "same".to_string(), T1).unwrap();
    for _ in 0..5 {
        let again = poll_at(&mut store, 1, "same".to_string(), T2).unwrap();
        assert_eq!(again.outcome, Outcome::Unchanged);
        assert!(again.change.is_none());
    }
    assert_eq!(get_snapshots(&store).len(), 1);
    assert_eq!(get_changes(&store).len(), 1);
}

#[test]
fn content_that_returns_to_an_earlier_value_is_a_change() {
    let mut store = store_with_site("https://example.com/a", 60);
    poll_at(&mut store, 1, "v1".to_string(), T1).unwrap();
    poll_at(&mut store, 1, "v2".to_string(), T2).unwrap();
    let back = poll_at(&mut store, 1, "v1".to_string(), T3).unwrap();
    assert_eq!(back.outcome, Outcome::Changed);
    assert_eq!(back.change.unwrap().old_snapshot_id, Some(2));
    assert_eq!(get_snapshots(&store).len(), 3);
}

#[test]
fn sites_are_polled_independently() {
    let mut store = store_with_site("https://example.com/a", 60);
    let other =
        NewSite { url: "https://example.com/b".to_string(), selector: None, check_interval_seconds: 5 };
    create_site_at(&mut store, other, T0).unwrap();
    assert_eq!(poll_at(&mut store, 1, "v1".to_string(), T1).unwrap().outcome, Outcome::Baseline);
    // the same content on another site is that site's baseline
    assert_eq!(poll_at(&mut store, 2, "v1".to_string(), T1).unwrap().outcome, Outcome::Baseline);
    assert_eq!(poll_at(&mut store, 1, "v1".to_string(), T2).unwrap().outcome, Outcome::Unchanged);
    let changed = poll_at(&mut store, 2, "v2".to_string(), T2).unwrap();
    assert_eq!(changed.outcome, Outcome::Changed);
    assert_eq!(changed.change.unwrap().old_snapshot_id, Some(2));
    assert_eq!(get_site(&store, 1).unwrap().last_snapshot_id, Some(1));
    assert_eq!(get_site(&store, 2).unwrap().last_snapshot_id, Some(3));
}

#[test]
fn poll_of_unknown_site_is_not_found_and_writes_nothing() {
    let mut store = store_with_site("https://example.com/a", 60);
    let result = poll_at(&mut store, 2, "v1".to_string(), T1);
    assert_eq!(result.unwrap_err(), StoreError::NotFound);
    assert!(get_snapshots(&store).is_empty());
    assert!(get_changes(&store).is_empty());
    assert_eq!(get_site(&store, 1).unwrap().last_checked_at, None);
}

#[test]
fn empty_content_is_content() {
    let mut store = store_with_site("https://example.com/a", 60);
    let first = poll_at(&mut store, 1, String::new(), T1).unwrap();
    assert_eq!(first.outcome, Outcome::Baseline);
    assert_eq!(get_snapshots(&store)[0].content_hash, "cbf29ce484222325");
    let second = poll_at(&mut store, 1, String::new(), T2).unwrap();
    assert_eq!(second.outcome, Outcome::Unchanged);
}
