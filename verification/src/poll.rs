//! One poll of a site, from the fetched content to the rows written.

use crate::diff::{evaluate, outcome_of, summarize, summary_text, Outcome};
use crate::fingerprint::{fingerprint_hex, fingerprint_text};
use crate::models::change::{Change, ChangeView};
use crate::models::site::NewSiteView;
use crate::models::snapshot::SnapshotView;
use crate::store::{
    contains_site, last_snapshot, lemma_check_keeps_wf, lemma_create_keeps_wf,
    lemma_record_keeps_wf, lemma_site_index_unique, mark_checked, record_poll_result_at, Store,
    StoreError, StoreView,
};
use vstd::prelude::*;
use vstd::utf8::encode_utf8;

verus! {

/// What a completed poll found and wrote.
#[derive(Debug)]
pub struct PollReport {
    /// What the poll found.
    pub outcome: Outcome,
    /// The change that was recorded; none when the content was unchanged.
    pub change: Option<Change>,
}

/// The fingerprint, as text, of fetched content.
pub open spec fn content_fingerprint(content: Seq<char>) -> Seq<char> {
    fingerprint_text(encode_utf8(content))
}

/// What a poll of the site `id` finds when it fetches `content`.
pub open spec fn poll_outcome(tables: StoreView, id: i64, content: Seq<char>) -> Outcome {
    outcome_of(tables.last_snapshot(id), content_fingerprint(content))
}

/// Tells whether a poll of the site `id` that fetches `content` can be
/// carried out: the site exists and, unless the content is unchanged, a
/// poll result can be written.
pub open spec fn can_poll(tables: StoreView, id: i64, content: Seq<char>) -> bool {
    &&& tables.has_site(id)
    &&& poll_outcome(tables, id, content) != Outcome::Unchanged ==> tables.can_record(id)
}

/// The tables after a poll of the site `id` at `now` that fetched
/// `content`. Unchanged content only refreshes the time of the last check;
/// anything else is written as a snapshot with its change.
pub open spec fn polled(tables: StoreView, id: i64, content: Seq<char>, now: Seq<char>) -> StoreView {
    if poll_outcome(tables, id, content) == Outcome::Unchanged {
        tables.check(id, now)
    } else {
        tables.record(
            id,
            content,
            content_fingerprint(content),
            summary_text(tables.last_snapshot(id), content),
            now,
        )
    }
}

/// Carries out a poll of the site `id` at `now` that fetched `content`:
/// fingerprints the content, compares it with the site's last snapshot and
/// writes what the outcome asks for.
///
/// An unknown site gives `NotFound`. When new content cannot be written for
/// want of identifiers, the result is `StorageFailure`. A failure leaves
/// the store as it was.
pub fn poll_at(store: &mut Store, id: i64, content: String, now: &str) -> (polled: Result<
    PollReport,
    StoreError,
>)
    requires
        old(store)@.wf(),
    ensures
        final(store)@.wf(),
        polled is Ok <==> can_poll(old(store)@, id, content@),
        polled matches Ok(report) ==> {
            &&& report.outcome == poll_outcome(old(store)@, id, content@)
            &&& report.change is Some <==> report.outcome != Outcome::Unchanged
            &&& report.change matches Some(change) ==> change@ == old(store)@.recorded_change(
                id,
                summary_text(old(store)@.last_snapshot(id), content@),
                now@,
            )
            &&& final(store)@ == self::polled(old(store)@, id, content@, now@)
        },
        polled is Err ==> final(store)@ == old(store)@,
        polled matches Err(e) ==> (e == StoreError::NotFound <==> !old(store)@.has_site(id)),
        polled matches Err(e) ==> (e == StoreError::StorageFailure <==> old(store)@.has_site(id)),
{
    if !contains_site(store, id) {
        return Err(StoreError::NotFound);
    }
    let fingerprint = fingerprint_hex(content.as_str().as_bytes());
    let previous = last_snapshot(store, id);
    let outcome = evaluate(&previous, &fingerprint);
    match outcome {
        Outcome::Unchanged => {
            match mark_checked(store, id, now) {
                Ok(()) => Ok(PollReport { outcome, change: None }),
                Err(e) => Err(e),
            }
        },
        _ => {
            let summary = summarize(&previous, content.as_str());
            match record_poll_result_at(store, id, content, fingerprint, summary, now) {
                Ok(change) => Ok(PollReport { outcome, change: Some(change) }),
                Err(e) => Err(e),
            }
        },
    }
}

/// A poll that can be carried out keeps the tables consistent.
pub proof fn lemma_poll_keeps_wf(tables: StoreView, id: i64, content: Seq<char>, now: Seq<char>)
    requires
        tables.wf(),
        can_poll(tables, id, content),
    ensures
        polled(tables, id, content, now).wf(),
        polled(tables, id, content, now).has_site(id),
{
    let after = polled(tables, id, content, now);
    let at = tables.site_index(id);
    assert(0 <= at < tables.sites.len() && tables.sites[at].id == id);
    assert(after.sites[at].id == id);
    if poll_outcome(tables, id, content) == Outcome::Unchanged {
        lemma_check_keeps_wf(tables, id, now);
    } else {
        lemma_record_keeps_wf(
            tables,
            id,
            content,
            content_fingerprint(content),
            summary_text(tables.last_snapshot(id), content),
            now,
        );
    }
}

/// A poll never touches what is there: the snapshots and changes of before
/// are the first snapshots and changes of after, no site is added or
/// removed, and of the site rows only the time of the last check and the
/// snapshot pointer of the polled site can differ.
pub proof fn law_poll_only_appends(tables: StoreView, id: i64, content: Seq<char>, now: Seq<char>)
    requires
        tables.wf(),
        can_poll(tables, id, content),
    ensures
        polled(tables, id, content, now).snapshots.take(tables.snapshots.len() as int)
            == tables.snapshots,
        polled(tables, id, content, now).changes.take(tables.changes.len() as int)
            == tables.changes,
        polled(tables, id, content, now).sites.len() == tables.sites.len(),
        forall|i: int|
            0 <= i < tables.sites.len() ==> {
                let before = #[trigger] tables.sites[i];
                let after = polled(tables, id, content, now).sites[i];
                &&& after.id == before.id
                &&& after.url == before.url
                &&& after.selector == before.selector
                &&& after.check_interval_seconds == before.check_interval_seconds
                &&& after.created_at == before.created_at
                &&& before.id != id ==> after == before
            },
{
    let after = polled(tables, id, content, now);
    let at = tables.site_index(id);
    assert(0 <= at < tables.sites.len() && tables.sites[at].id == id);
    assert(after.snapshots.take(tables.snapshots.len() as int) =~= tables.snapshots);
    assert(after.changes.take(tables.changes.len() as int) =~= tables.changes);
}

/// Polling a site twice in succession with the same content: the second
/// poll finds the content unchanged, can always be carried out, and adds
/// neither a snapshot nor a change to what the first poll left.
pub proof fn law_repeated_poll_is_idempotent(
    tables: StoreView,
    id: i64,
    content: Seq<char>,
    first: Seq<char>,
    second: Seq<char>,
)
    requires
        tables.wf(),
        can_poll(tables, id, content),
    ensures
        poll_outcome(polled(tables, id, content, first), id, content) == Outcome::Unchanged,
        can_poll(polled(tables, id, content, first), id, content),
        polled(polled(tables, id, content, first), id, content, second).snapshots == polled(
            tables,
            id,
            content,
            first,
        ).snapshots,
        polled(polled(tables, id, content, first), id, content, second).changes == polled(
            tables,
            id,
            content,
            first,
        ).changes,
{
    let once = polled(tables, id, content, first);
    lemma_poll_keeps_wf(tables, id, content, first);
    if poll_outcome(tables, id, content) != Outcome::Unchanged {
        let snapshot = tables.recorded_snapshot(id, content, content_fingerprint(content), first);
        assert(once.snapshots.last() == snapshot);
    }
}

/// The first poll of a site that has no snapshot yet captures a baseline:
/// it adds exactly one snapshot, holding the fetched content and its
/// fingerprint, and exactly one change, which has no old snapshot and names
/// the new one; the site then points at that snapshot.
pub proof fn law_first_poll_captures_baseline(
    tables: StoreView,
    id: i64,
    content: Seq<char>,
    now: Seq<char>,
)
    requires
        tables.wf(),
        tables.can_record(id),
        tables.site(id).last_snapshot_id is None,
    ensures
        poll_outcome(tables, id, content) == Outcome::Baseline,
        can_poll(tables, id, content),
        polled(tables, id, content, now).snapshots == tables.snapshots.push(
            SnapshotView {
                id: tables.next_snapshot_id() as i64,
                site_id: id,
                created_at: now,
                content_hash: content_fingerprint(content),
                content,
            },
        ),
        polled(tables, id, content, now).changes == tables.changes.push(
            ChangeView {
                id: tables.next_change_id() as i64,
                site_id: id,
                old_snapshot_id: None,
                new_snapshot_id: tables.next_snapshot_id() as i64,
                created_at: now,
                summary: "baseline captured"@,
            },
        ),
        polled(tables, id, content, now).site(id).last_snapshot_id == Some(
            tables.next_snapshot_id() as i64,
        ),
        polled(tables, id, content, now).site(id).last_checked_at == Some(now),
{
    let at = tables.site_index(id);
    assert(0 <= at < tables.sites.len() && tables.sites[at].id == id);
    assert(tables.pointer_matches(at));
    lemma_poll_keeps_wf(tables, id, content, now);
    let after = polled(tables, id, content, now);
    assert(after.sites[at].id == id);
    lemma_site_index_unique(after, at);
}

/// Two polls in succession, with the same content, of a site that had no
/// snapshot leave exactly one snapshot and one change more than there were:
/// those of the first poll.
pub proof fn law_two_polls_leave_one_snapshot(
    tables: StoreView,
    id: i64,
    content: Seq<char>,
    first: Seq<char>,
    second: Seq<char>,
)
    requires
        tables.wf(),
        tables.can_record(id),
        tables.site(id).last_snapshot_id is None,
    ensures
        polled(polled(tables, id, content, first), id, content, second).snapshots
            == tables.snapshots.push(
            tables.recorded_snapshot(id, content, content_fingerprint(content), first),
        ),
        polled(polled(tables, id, content, first), id, content, second).changes
            == tables.changes.push(tables.recorded_change(id, "baseline captured"@, first)),
        tables.recorded_change(id, "baseline captured"@, first).old_snapshot_id is None,
{
    law_first_poll_captures_baseline(tables, id, content, first);
    law_repeated_poll_is_idempotent(tables, id, content, first, second);
}

/// A site that was just registered has no snapshot, so its first poll is a
/// baseline.
pub proof fn law_new_site_starts_without_snapshot(
    tables: StoreView,
    new: NewSiteView,
    now: Seq<char>,
)
    requires
        tables.wf(),
        new.valid(),
        tables.can_create(new),
    ensures
        tables.create(new, now).has_site(tables.next_site_id() as i64),
        tables.create(new, now).site(tables.next_site_id() as i64) == tables.created_site(new, now),
        tables.create(new, now).site(tables.next_site_id() as i64).last_snapshot_id is None,
        tables.create(new, now).last_snapshot(tables.next_site_id() as i64) is None,
{
    let after = tables.create(new, now);
    let n = tables.sites.len() as int;
    lemma_create_keeps_wf(tables, new, now);
    assert(after.sites[n] == tables.created_site(new, now));
    lemma_site_index_unique(after, n);
    assert(after.pointer_matches(n));
}

} // verus!
