//! The decision whether fetched content differs from a site's last
//! snapshot, and the summary that describes the difference.

use crate::models::snapshot::{Snapshot, SnapshotView};
use crate::text::{decimal, push_decimal};
use vstd::prelude::*;
use vstd::utf8::encode_utf8;

verus! {

/// What a poll found.
#[derive(Debug, Clone, Copy, PartialEq, Eq, Structural)]
pub enum Outcome {
    /// The fingerprint is that of the site's last snapshot.
    Unchanged,
    /// The site has no snapshot yet.
    Baseline,
    /// The fingerprint differs from that of the site's last snapshot.
    Changed,
}

/// The value of an optional snapshot.
pub open spec fn snapshot_view(snapshot: Option<Snapshot>) -> Option<SnapshotView> {
    match snapshot {
        Some(s) => Some(s@),
        None => None,
    }
}

/// The outcome of a poll that fetched content with the given fingerprint,
/// for a site whose last snapshot is `previous`. Only fingerprints are
/// compared, never the contents.
pub open spec fn outcome_of(previous: Option<SnapshotView>, fingerprint: Seq<char>) -> Outcome {
    match previous {
        None => Outcome::Baseline,
        Some(last) => if last.content_hash == fingerprint {
            Outcome::Unchanged
        } else {
            Outcome::Changed
        },
    }
}

/// Decides what a poll found.
pub fn evaluate(previous: &Option<Snapshot>, fetched_fingerprint: &String) -> (outcome: Outcome)
    ensures
        outcome == outcome_of(snapshot_view(*previous), fetched_fingerprint@),
{
    match previous {
        None => Outcome::Baseline,
        Some(last) => if last.content_hash == *fetched_fingerprint {
            Outcome::Unchanged
        } else {
            Outcome::Changed
        },
    }
}

/// The number of line feeds in a byte sequence.
pub open spec fn line_feeds(bytes: Seq<u8>) -> nat
    decreases bytes.len(),
{
    if bytes.len() == 0 {
        0
    } else {
        line_feeds(bytes.drop_last()) + if bytes.last() == 10 {
            1nat
        } else {
            0nat
        }
    }
}

/// The number of lines of a text: each line feed ends one, and what follows
/// the last line feed is a line if it is not empty.
pub open spec fn line_count(bytes: Seq<u8>) -> nat {
    line_feeds(bytes) + if bytes.len() > 0 && bytes.last() != 10 {
        1nat
    } else {
        0nat
    }
}

/// There are at most as many lines as bytes.
pub proof fn lemma_line_count_bounded(bytes: Seq<u8>)
    ensures
        line_feeds(bytes) <= bytes.len(),
        line_count(bytes) <= bytes.len(),
    decreases bytes.len(),
{
    if bytes.len() > 0 {
        lemma_line_count_bounded(bytes.drop_last());
    }
}

/// Counts the lines of a text.
pub fn count_lines(bytes: &[u8]) -> (lines: usize)
    ensures
        lines == line_count(bytes@),
{
    let mut feeds: usize = 0;
    let mut i: usize = 0;
    while i < bytes.len()
        invariant
            i <= bytes.len(),
            feeds == line_feeds(bytes@.take(i as int)),
            feeds <= i,
        decreases bytes.len() - i,
    {
        proof {
            assert(bytes@.take(i + 1).drop_last() =~= bytes@.take(i as int));
        }
        if bytes[i] == 10 {
            feeds += 1;
        }
        i += 1;
    }
    proof {
        assert(bytes@.take(i as int) =~= bytes@);
        lemma_line_count_bounded(bytes@);
        if bytes@.len() > 0 {
            lemma_line_count_bounded(bytes@.drop_last());
        }
    }
    if bytes.len() > 0 && bytes[bytes.len() - 1] != 10 {
        feeds + 1
    } else {
        feeds
    }
}

/// The summary of a change from the content `old` to the content `new`:
/// their sizes in bytes and in lines.
pub open spec fn change_summary(old: Seq<u8>, new: Seq<u8>) -> Seq<char> {
    "content changed: "@ + decimal(old.len()) + " -> "@ + decimal(new.len()) + " bytes, "@
        + decimal(line_count(old)) + " -> "@ + decimal(line_count(new)) + " lines"@
}

/// The summary of the change that a poll records: that a baseline was
/// captured when the site had no snapshot, else the sizes of the last
/// snapshot's content and of the new content.
pub open spec fn summary_text(previous: Option<SnapshotView>, content: Seq<char>) -> Seq<char> {
    match previous {
        None => "baseline captured"@,
        Some(last) => change_summary(encode_utf8(last.content), encode_utf8(content)),
    }
}

/// Writes the summary of the change that a poll records.
pub fn summarize(previous: &Option<Snapshot>, content: &str) -> (summary: String)
    ensures
        summary@ == summary_text(snapshot_view(*previous), content@),
{
    match previous {
        None => String::from_str("baseline captured"),
        Some(last) => {
            let old = last.content.as_str().as_bytes();
            let new = content.as_bytes();
            let mut summary = String::from_str("content changed: ");
            push_decimal(&mut summary, old.len() as u64);
            summary.append(" -> ");
            push_decimal(&mut summary, new.len() as u64);
            summary.append(" bytes, ");
            push_decimal(&mut summary, count_lines(old) as u64);
            summary.append(" -> ");
            push_decimal(&mut summary, count_lines(new) as u64);
            summary.append(" lines");
            summary
        },
    }
}

} // verus!
