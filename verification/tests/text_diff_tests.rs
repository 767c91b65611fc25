use sitewatch::diff::{count_lines, evaluate, summarize, Outcome};
use sitewatch::models::snapshot::Snapshot;
use sitewatch::text::{clone_text, push_decimal};

fn snapshot(content: &str, hash: &str) -> Snapshot {
    Snapshot {
        id: 1,
        site_id: 1,
        created_at: "2024-01-01T00:00:00+00:00".to_string(),
        content_hash: hash.to_string(),
        content: content.to_string(),
    }
}

fn decimal(n: u64) -> String {
    let mut text = String::new();
    push_decimal(&mut text, n);
    text
}

#[test]
fn decimal_of_small_and_large_numbers() {
    assert_eq!(decimal(0), "0");
    assert_eq!(decimal(7), "7");
    assert_eq!(decimal(10), "10");
    assert_eq!(decimal(99), "99");
    assert_eq!(decimal(100), "100");
    assert_eq!(decimal(12345), "12345");
    assert_eq!(decimal(u64::MAX), "18446744073709551615");
}

#[test]
fn decimal_is_appended() {
    let mut text = String::from("n=");
    push_decimal(&mut text, 42);
    assert_eq!(text, "n=42");
}

#[test]
fn clone_text_copies() {
    assert_eq!(clone_text(&None), None);
    assert_eq!(clone_text(&Some("main".to_string())), Some("main".to_string()));
}

#[test]
fn lines_are_counted_like_text_lines() {
    assert_eq!(count_lines(b""), 0);
    assert_eq!(count_lines(b"a"), 1);
    assert_eq!(count_lines(b"a\n"), 1);
    assert_eq!(count_lines(b"a\nb"), 2);
    assert_eq!(count_lines(b"a\nb\n"), 2);
    assert_eq!(count_lines(b"\n"), 1);
    assert_eq!(count_lines(b"\n\n"), 2);
    assert_eq!(count_lines(b"\n\nx"), 3);
}

#[test]
fn no_snapshot_means_baseline() {
    assert_eq!(evaluate(&None, &"abc".to_string()), Outcome::Baseline);
}

#[test]
fn equal_fingerprint_means_unchanged() {
    let last = Some(snapshot("v1", "08cf0b07b5709128"));
    assert_eq!(evaluate(&last, &"08cf0b07b5709128".to_string()), Outcome::Unchanged);
}

#[test]
fn different_fingerprint_means_changed() {
    let last = Some(snapshot("v1", "08cf0b07b5709128"));
    assert_eq!(evaluate(&last, &"08cf0e07b5709641".to_string()), Outcome::Changed);
}

#[test]
fn only_fingerprints_are_compared() {
    // Equal fingerprints with different contents still count as unchanged.
    let last = Some(snapshot("one text", "same"));
    assert_eq!(evaluate(&last, &"same".to_string()), Outcome::Unchanged);
}

#[test]
fn baseline_summary() {
    assert_eq!(summarize(&None, "anything"), "baseline captured");
}

#[test]
fn change_summary_gives_sizes() {
    let last = Some(snapshot("v1", "h"));
    assert_eq!(summarize(&last, "v2"), "content changed: 2 -> 2 bytes, 1 -> 1 lines");
    assert_eq!(
        summarize(&last, "line one\nline two\n"),
        "content changed: 2 -> 18 bytes, 1 -> 2 lines"
    );
    let long = Some(snapshot("a\nb\nc", "h"));
    assert_eq!(summarize(&long, ""), "content changed: 5 -> 0 bytes, 3 -> 0 lines");
}

#[test]
fn change_summary_counts_bytes_not_characters() {
    let last = Some(snapshot("é", "h"));
    assert_eq!(summarize(&last, "e"), "content changed: 2 -> 1 bytes, 1 -> 1 lines");
}

#[test]
fn summary_is_deterministic() {
    let last = Some(snapshot("old\ncontent", "h"));
    assert_eq!(summarize(&last, "new"), summarize(&last, "new"));
}
