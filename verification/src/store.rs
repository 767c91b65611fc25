//! The three tables, what makes them consistent, and the operations that
//! read and extend them.

use crate::models::change::{Change, ChangeView};
use crate::models::site::{NewSite, NewSiteView, Site, SiteView};
use crate::models::snapshot::{Snapshot, SnapshotView};
use crate::clock::now;
use crate::integrity::{
    changes_consistent, pointers_consistent, sites_consistent, snapshots_consistent,
};
use vstd::prelude::*;

verus! {

/// Why an operation on the store did not take place.
#[derive(Debug, Clone, Copy, PartialEq, Eq, Structural)]
pub enum StoreError {
    /// A site with the same URL is already registered.
    DuplicateUrl,
    /// No site has the given identifier.
    NotFound,
    /// The rows could not be written: a table has run out of identifiers.
    StorageFailure,
}

/// The sites, snapshots and changes, each table in the order of its
/// identifiers.
pub struct Store {
    sites: Vec<Site>,
    snapshots: Vec<Snapshot>,
    changes: Vec<Change>,
}

/// The mathematical value of a [`Store`].
pub struct StoreView {
    pub sites: Seq<SiteView>,
    pub snapshots: Seq<SnapshotView>,
    pub changes: Seq<ChangeView>,
}

/// The values of a sequence of site rows.
pub open spec fn site_views(rows: Seq<Site>) -> Seq<SiteView> {
    rows.map_values(|row: Site| row@)
}

/// The values of a sequence of snapshot rows.
pub open spec fn snapshot_views(rows: Seq<Snapshot>) -> Seq<SnapshotView> {
    rows.map_values(|row: Snapshot| row@)
}

/// The values of a sequence of change rows.
pub open spec fn change_views(rows: Seq<Change>) -> Seq<ChangeView> {
    rows.map_values(|row: Change| row@)
}

/// The tables that three sequences of rows make up.
pub open spec fn tables_of(sites: Seq<Site>, snapshots: Seq<Snapshot>, changes: Seq<Change>) -> StoreView {
    StoreView {
        sites: site_views(sites),
        snapshots: snapshot_views(snapshots),
        changes: change_views(changes),
    }
}

impl View for Store {
    type V = StoreView;

    closed spec fn view(&self) -> StoreView {
        tables_of(self.sites@, self.snapshots@, self.changes@)
    }
}

/// The last snapshot in `snapshots` that belongs to the site `site_id`.
pub open spec fn latest_snapshot(snapshots: Seq<SnapshotView>, site_id: i64) -> Option<SnapshotView>
    decreases snapshots.len(),
{
    if snapshots.len() == 0 {
        None
    } else if snapshots.last().site_id == site_id {
        Some(snapshots.last())
    } else {
        latest_snapshot(snapshots.drop_last(), site_id)
    }
}

/// The identifier of an optional snapshot.
pub open spec fn id_of(snapshot: Option<SnapshotView>) -> Option<i64> {
    match snapshot {
        Some(s) => Some(s.id),
        None => None,
    }
}

/// The identifier that follows `last`, the greatest one in use, if any.
pub open spec fn following(last: Option<i64>) -> int {
    match last {
        Some(id) => id + 1,
        None => 1,
    }
}

/// Tells whether a row of `sites` has the identifier `id`.
pub open spec fn site_exists(sites: Seq<SiteView>, id: i64) -> bool {
    exists|i: int| 0 <= i < sites.len() && (#[trigger] sites[i]).id == id
}

/// Every site row is valid, identifiers ascend, and no URL occurs twice.
pub open spec fn valid_sites(sites: Seq<SiteView>) -> bool {
    &&& forall|i: int| 0 <= i < sites.len() ==> (#[trigger] sites[i]).valid()
    &&& forall|i: int, j: int|
        #![trigger sites[i], sites[j]]
        0 <= i < j < sites.len() ==> sites[i].id < sites[j].id
    &&& forall|i: int, j: int|
        #![trigger sites[i], sites[j]]
        0 <= i < j < sites.len() ==> sites[i].url != sites[j].url
}

/// Every snapshot belongs to a site, and identifiers ascend from one.
pub open spec fn valid_snapshots(sites: Seq<SiteView>, snapshots: Seq<SnapshotView>) -> bool {
    &&& forall|k: int|
        0 <= k < snapshots.len() ==> (#[trigger] snapshots[k]).id >= 1 && site_exists(
            sites,
            snapshots[k].site_id,
        )
    &&& forall|k: int, m: int|
        #![trigger snapshots[k], snapshots[m]]
        0 <= k < m < snapshots.len() ==> snapshots[k].id < snapshots[m].id
}

/// The change at position `k` records the snapshot at position `k`: it
/// belongs to the same site, names that snapshot as the new one and, as the
/// old one, the snapshot that was the site's last before it.
pub open spec fn change_links(snapshots: Seq<SnapshotView>, changes: Seq<ChangeView>, k: int) -> bool {
    &&& changes[k].site_id == snapshots[k].site_id
    &&& changes[k].new_snapshot_id == snapshots[k].id
    &&& changes[k].old_snapshot_id == id_of(
        latest_snapshot(snapshots.take(k), snapshots[k].site_id),
    )
}

/// There is one change for each snapshot, at the same position, and
/// identifiers ascend from one.
pub open spec fn valid_changes(snapshots: Seq<SnapshotView>, changes: Seq<ChangeView>) -> bool {
    &&& changes.len() == snapshots.len()
    &&& forall|k: int|
        0 <= k < changes.len() ==> (#[trigger] changes[k]).id >= 1 && change_links(
            snapshots,
            changes,
            k,
        )
    &&& forall|k: int, m: int|
        #![trigger changes[k], changes[m]]
        0 <= k < m < changes.len() ==> changes[k].id < changes[m].id
}

/// The site at position `i` points at its last snapshot, and a site with a
/// snapshot has been checked.
pub open spec fn pointer_links(sites: Seq<SiteView>, snapshots: Seq<SnapshotView>, i: int) -> bool {
    &&& sites[i].last_snapshot_id == id_of(latest_snapshot(snapshots, sites[i].id))
    &&& sites[i].last_snapshot_id is Some ==> sites[i].last_checked_at is Some
}

/// Every site points at its last snapshot.
pub open spec fn valid_pointers(sites: Seq<SiteView>, snapshots: Seq<SnapshotView>) -> bool {
    forall|i: int| 0 <= i < sites.len() ==> #[trigger] pointer_links(sites, snapshots, i)
}

impl StoreView {
    /// Tells whether a site has the identifier `id`.
    pub open spec fn has_site(self, id: i64) -> bool {
        site_exists(self.sites, id)
    }

    /// The position of the site `id` in the table.
    pub open spec fn site_index(self, id: i64) -> int {
        choose|i: int| 0 <= i < self.sites.len() && (#[trigger] self.sites[i]).id == id
    }

    /// The row of the site `id`.
    pub open spec fn site(self, id: i64) -> SiteView {
        self.sites[self.site_index(id)]
    }

    /// Tells whether a site is registered under `url`.
    pub open spec fn has_url(self, url: Seq<char>) -> bool {
        exists|i: int| 0 <= i < self.sites.len() && (#[trigger] self.sites[i]).url == url
    }

    /// The last snapshot of the site `id`, if it has one.
    pub open spec fn last_snapshot(self, id: i64) -> Option<SnapshotView> {
        latest_snapshot(self.snapshots, id)
    }

    /// The identifier that the next site gets.
    pub open spec fn next_site_id(self) -> int {
        following(if self.sites.len() == 0 { None } else { Some(self.sites.last().id) })
    }

    /// The identifier that the next snapshot gets.
    pub open spec fn next_snapshot_id(self) -> int {
        following(if self.snapshots.len() == 0 { None } else { Some(self.snapshots.last().id) })
    }

    /// The identifier that the next change gets.
    pub open spec fn next_change_id(self) -> int {
        following(if self.changes.len() == 0 { None } else { Some(self.changes.last().id) })
    }

    /// Every site row is valid, identifiers ascend, and no URL occurs twice.
    pub open spec fn sites_valid(self) -> bool {
        valid_sites(self.sites)
    }

    /// Every snapshot belongs to a site, and identifiers ascend from one.
    pub open spec fn snapshots_valid(self) -> bool {
        valid_snapshots(self.sites, self.snapshots)
    }

    /// The change at position `k` records the snapshot at position `k`.
    pub open spec fn change_matches(self, k: int) -> bool {
        change_links(self.snapshots, self.changes, k)
    }

    /// There is one change for each snapshot, and identifiers ascend from
    /// one.
    pub open spec fn changes_valid(self) -> bool {
        valid_changes(self.snapshots, self.changes)
    }

    /// The site at position `i` points at its last snapshot.
    pub open spec fn pointer_matches(self, i: int) -> bool {
        pointer_links(self.sites, self.snapshots, i)
    }

    /// Every site points at its last snapshot.
    pub open spec fn pointers_valid(self) -> bool {
        valid_pointers(self.sites, self.snapshots)
    }

    /// The tables are consistent.
    pub open spec fn wf(self) -> bool {
        &&& self.sites_valid()
        &&& self.snapshots_valid()
        &&& self.changes_valid()
        &&& self.pointers_valid()
    }

    /// Tells whether `new` can be registered: its URL is free and the site
    /// table has an identifier left.
    pub open spec fn can_create(self, new: NewSiteView) -> bool {
        !self.has_url(new.url) && self.next_site_id() <= i64::MAX
    }

    /// The row that registering `new` at `now` adds.
    pub open spec fn created_site(self, new: NewSiteView, now: Seq<char>) -> SiteView {
        SiteView::registered(self.next_site_id() as i64, new, now)
    }

    /// The tables after registering `new` at `now`.
    pub open spec fn create(self, new: NewSiteView, now: Seq<char>) -> StoreView {
        StoreView { sites: self.sites.push(self.created_site(new, now)), ..self }
    }
}

impl StoreView {
    /// Tells whether a poll result can be written for the site `id`: the
    /// site exists, and the snapshot and change tables have an identifier
    /// left.
    pub open spec fn can_record(self, id: i64) -> bool {
        &&& self.has_site(id)
        &&& self.next_snapshot_id() <= i64::MAX
        &&& self.next_change_id() <= i64::MAX
    }

    /// The snapshot that writing a poll result adds.
    pub open spec fn recorded_snapshot(
        self,
        id: i64,
        content: Seq<char>,
        fingerprint: Seq<char>,
        now: Seq<char>,
    ) -> SnapshotView {
        SnapshotView {
            id: self.next_snapshot_id() as i64,
            site_id: id,
            created_at: now,
            content_hash: fingerprint,
            content,
        }
    }

    /// The change that writing a poll result adds: from the site's last
    /// snapshot so far, if any, to the new one.
    pub open spec fn recorded_change(self, id: i64, summary: Seq<char>, now: Seq<char>) -> ChangeView {
        ChangeView {
            id: self.next_change_id() as i64,
            site_id: id,
            old_snapshot_id: self.site(id).last_snapshot_id,
            new_snapshot_id: self.next_snapshot_id() as i64,
            created_at: now,
            summary,
        }
    }

    /// The tables after writing a poll result for the site `id`: one more
    /// snapshot, one more change, and the site pointing at the new snapshot
    /// and checked at `now`.
    pub open spec fn record(
        self,
        id: i64,
        content: Seq<char>,
        fingerprint: Seq<char>,
        summary: Seq<char>,
        now: Seq<char>,
    ) -> StoreView {
        StoreView {
            sites: self.sites.update(
                self.site_index(id),
                self.site(id).captured(self.next_snapshot_id() as i64, now),
            ),
            snapshots: self.snapshots.push(self.recorded_snapshot(id, content, fingerprint, now)),
            changes: self.changes.push(self.recorded_change(id, summary, now)),
        }
    }

    /// The tables after a poll of the site `id` at `now` that wrote nothing.
    pub open spec fn check(self, id: i64, now: Seq<char>) -> StoreView {
        StoreView {
            sites: self.sites.update(self.site_index(id), self.site(id).checked(now)),
            ..self
        }
    }
}

/// A sequence of snapshots none of which belongs to a site has no last
/// snapshot for it.
pub proof fn lemma_latest_absent(snapshots: Seq<SnapshotView>, site_id: i64)
    requires
        forall|k: int| 0 <= k < snapshots.len() ==> (#[trigger] snapshots[k]).site_id != site_id,
    ensures
        latest_snapshot(snapshots, site_id) is None,
    decreases snapshots.len(),
{
    if snapshots.len() > 0 {
        assert(snapshots.last() == snapshots[snapshots.len() - 1]);
        let earlier = snapshots.drop_last();
        assert forall|k: int| 0 <= k < earlier.len() implies (#[trigger] earlier[k]).site_id
            != site_id by {
            assert(earlier[k] == snapshots[k]);
        }
        lemma_latest_absent(snapshots.drop_last(), site_id);
    }
}

/// In consistent tables an identifier names one site only.
pub proof fn lemma_site_index_unique(tables: StoreView, i: int)
    requires
        tables.sites_valid(),
        0 <= i < tables.sites.len(),
    ensures
        tables.has_site(tables.sites[i].id),
        tables.site_index(tables.sites[i].id) == i,
        tables.site(tables.sites[i].id) == tables.sites[i],
{
    let id = tables.sites[i].id;
    let j = tables.site_index(id);
    assert(0 <= j < tables.sites.len() && tables.sites[j].id == id);
    if j < i {
        assert(tables.sites[j].id < tables.sites[i].id);
    } else if i < j {
        assert(tables.sites[i].id < tables.sites[j].id);
    }
}

/// Registering a valid site keeps the tables consistent.
pub proof fn lemma_create_keeps_wf(tables: StoreView, new: NewSiteView, now: Seq<char>)
    requires
        tables.wf(),
        new.valid(),
        tables.can_create(new),
    ensures
        tables.create(new, now).wf(),
{
    let after = tables.create(new, now);
    let row = tables.created_site(new, now);
    let n = tables.sites.len() as int;
    assert(after.sites.len() == n + 1);
    assert(after.sites[n] == row);
    assert forall|i: int| 0 <= i < n implies #[trigger] after.sites[i] == tables.sites[i] by {}
    if n > 0 {
        assert(tables.sites.last() == tables.sites[n - 1]);
        assert(tables.sites[n - 1].valid());
    }
    assert forall|i: int| 0 <= i < n implies (#[trigger] tables.sites[i]).id < row.id by {
        if i < n - 1 {
            assert(tables.sites[i].id < tables.sites[n - 1].id);
        }
    }
    assert forall|k: int| 0 <= k < tables.snapshots.len() implies (#[trigger] tables.snapshots[k]).site_id
        != row.id by {
        let owner = tables.site_index(tables.snapshots[k].site_id);
        assert(tables.has_site(tables.snapshots[k].site_id));
        assert(tables.sites[owner].id < row.id);
    }
    lemma_latest_absent(tables.snapshots, row.id);
    assert(after.sites_valid()) by {
        assert forall|i: int| 0 <= i < after.sites.len() implies (#[trigger] after.sites[i]).valid() by {
            if i < n {
                assert(after.sites[i] == tables.sites[i]);
            }
        }
        assert forall|i: int, j: int|
            #![trigger after.sites[i], after.sites[j]]
            0 <= i < j < after.sites.len() implies after.sites[i].id < after.sites[j].id
            && after.sites[i].url != after.sites[j].url by {
            assert(after.sites[i] == tables.sites[i]);
            if j < n {
                assert(after.sites[j] == tables.sites[j]);
            }
        }
    }
    assert(after.snapshots_valid()) by {
        assert forall|k: int| 0 <= k < after.snapshots.len() implies after.has_site(
            (#[trigger] after.snapshots[k]).site_id,
        ) by {
            let owner = tables.site_index(tables.snapshots[k].site_id);
            assert(tables.has_site(tables.snapshots[k].site_id));
            assert(after.sites[owner] == tables.sites[owner]);
        }
    }
    assert(after.changes_valid()) by {
        assert forall|k: int| 0 <= k < after.changes.len() implies after.change_matches(k) by {
            assert(tables.changes[k].id >= 1 && tables.change_matches(k));
        }
    }
    assert(after.pointers_valid()) by {
        assert forall|i: int| 0 <= i < after.sites.len() implies #[trigger] pointer_links(
            after.sites,
            after.snapshots,
            i,
        ) by {
            if i < n {
                assert(after.sites[i] == tables.sites[i]);
                assert(tables.pointer_matches(i));
            }
        }
    }
}

/// The last snapshot of a site, when there is one, is a row of the sequence
/// and belongs to that site.
pub proof fn lemma_latest_is_member(snapshots: Seq<SnapshotView>, site_id: i64)
    requires
        latest_snapshot(snapshots, site_id) is Some,
    ensures
        exists|k: int|
            0 <= k < snapshots.len() && #[trigger] snapshots[k] == latest_snapshot(
                snapshots,
                site_id,
            )->0,
        latest_snapshot(snapshots, site_id)->0.site_id == site_id,
    decreases snapshots.len(),
{
    let n = snapshots.len() as int;
    if snapshots.last().site_id == site_id {
        assert(snapshots[n - 1] == latest_snapshot(snapshots, site_id)->0);
    } else {
        lemma_latest_is_member(snapshots.drop_last(), site_id);
        let k = choose|k: int|
            0 <= k < snapshots.drop_last().len() && #[trigger] snapshots.drop_last()[k]
                == latest_snapshot(snapshots.drop_last(), site_id)->0;
        assert(snapshots[k] == latest_snapshot(snapshots, site_id)->0);
    }
}

/// In consistent tables a site's snapshot pointer, when set, names a
/// snapshot that exists and belongs to that site.
pub proof fn law_pointer_resolves(tables: StoreView, i: int)
    requires
        tables.wf(),
        0 <= i < tables.sites.len(),
        tables.sites[i].last_snapshot_id is Some,
    ensures
        exists|k: int|
            0 <= k < tables.snapshots.len() && (#[trigger] tables.snapshots[k]).id
                == tables.sites[i].last_snapshot_id->0 && tables.snapshots[k].site_id
                == tables.sites[i].id,
{
    assert(tables.pointer_matches(i));
    lemma_latest_is_member(tables.snapshots, tables.sites[i].id);
    let k = choose|k: int|
        0 <= k < tables.snapshots.len() && #[trigger] tables.snapshots[k] == latest_snapshot(
            tables.snapshots,
            tables.sites[i].id,
        )->0;
    assert(tables.snapshots[k].id == tables.sites[i].last_snapshot_id->0);
}

/// In consistent tables the new snapshot of a change exists and belongs to
/// the change's site, and the old snapshot, when there is one, is an
/// earlier snapshot of the same site.
pub proof fn law_change_resolves(tables: StoreView, k: int)
    requires
        tables.wf(),
        0 <= k < tables.changes.len(),
    ensures
        tables.snapshots[k].id == tables.changes[k].new_snapshot_id,
        tables.snapshots[k].site_id == tables.changes[k].site_id,
        tables.has_site(tables.changes[k].site_id),
        tables.changes[k].old_snapshot_id is Some ==> exists|m: int|
            0 <= m < k && (#[trigger] tables.snapshots[m]).id == tables.changes[k].old_snapshot_id->0
                && tables.snapshots[m].site_id == tables.changes[k].site_id
                && tables.snapshots[m].id < tables.changes[k].new_snapshot_id,
{
    assert(tables.changes[k].id >= 1 && tables.change_matches(k));
    assert(tables.snapshots[k].id >= 1 && tables.has_site(tables.snapshots[k].site_id));
    if tables.changes[k].old_snapshot_id is Some {
        let earlier = tables.snapshots.take(k);
        let site_id = tables.snapshots[k].site_id;
        lemma_latest_is_member(earlier, site_id);
        let m = choose|m: int|
            0 <= m < earlier.len() && #[trigger] earlier[m] == latest_snapshot(earlier, site_id)->0;
        assert(earlier[m] == tables.snapshots[m]);
        assert(tables.snapshots[m].id < tables.snapshots[k].id);
    }
}

/// Marking a site as checked keeps the tables consistent.
pub proof fn lemma_check_keeps_wf(tables: StoreView, id: i64, now: Seq<char>)
    requires
        tables.wf(),
        tables.has_site(id),
    ensures
        tables.check(id, now).wf(),
{
    let after = tables.check(id, now);
    let at = tables.site_index(id);
    assert(0 <= at < tables.sites.len() && tables.sites[at].id == id);
    assert forall|i: int| 0 <= i < tables.sites.len() implies (#[trigger] after.sites[i]).id
        == tables.sites[i].id && after.sites[i].url == tables.sites[i].url
        && after.sites[i].check_interval_seconds == tables.sites[i].check_interval_seconds
        && after.sites[i].last_snapshot_id == tables.sites[i].last_snapshot_id
        && (tables.sites[i].last_checked_at is Some ==> after.sites[i].last_checked_at is Some) by {}
    assert(after.sites_valid()) by {
        assert forall|i: int| 0 <= i < after.sites.len() implies (#[trigger] after.sites[i]).valid() by {
            assert(tables.sites[i].valid());
        }
        assert forall|i: int, j: int|
            #![trigger after.sites[i], after.sites[j]]
            0 <= i < j < after.sites.len() implies after.sites[i].id < after.sites[j].id
            && after.sites[i].url != after.sites[j].url by {
            assert(tables.sites[i].id < tables.sites[j].id);
            assert(tables.sites[i].url != tables.sites[j].url);
        }
    }
    assert(after.snapshots_valid()) by {
        assert forall|k: int| 0 <= k < after.snapshots.len() implies after.has_site(
            (#[trigger] after.snapshots[k]).site_id,
        ) by {
            let owner = tables.site_index(tables.snapshots[k].site_id);
            assert(tables.has_site(tables.snapshots[k].site_id));
            assert(after.sites[owner].id == tables.sites[owner].id);
        }
    }
    assert(after.changes_valid()) by {
        assert forall|k: int| 0 <= k < after.changes.len() implies after.change_matches(k) by {
            assert(tables.changes[k].id >= 1 && tables.change_matches(k));
        }
    }
    assert(after.pointers_valid()) by {
        assert forall|i: int| 0 <= i < after.sites.len() implies #[trigger] pointer_links(
            after.sites,
            after.snapshots,
            i,
        ) by {
            assert(tables.pointer_matches(i));
            assert(after.sites[i].id == tables.sites[i].id);
        }
    }
}

/// Writing a poll result keeps the tables consistent.
pub proof fn lemma_record_keeps_wf(
    tables: StoreView,
    id: i64,
    content: Seq<char>,
    fingerprint: Seq<char>,
    summary: Seq<char>,
    now: Seq<char>,
)
    requires
        tables.wf(),
        tables.can_record(id),
    ensures
        tables.record(id, content, fingerprint, summary, now).wf(),
{
    let after = tables.record(id, content, fingerprint, summary, now);
    let at = tables.site_index(id);
    let n = tables.snapshots.len() as int;
    let snapshot = tables.recorded_snapshot(id, content, fingerprint, now);
    let change = tables.recorded_change(id, summary, now);
    assert(0 <= at < tables.sites.len() && tables.sites[at].id == id);
    assert(after.snapshots.len() == n + 1 && after.changes.len() == n + 1);
    assert(after.snapshots[n] == snapshot && after.changes[n] == change);
    assert(after.snapshots.drop_last() =~= tables.snapshots);
    assert(after.snapshots.take(n) =~= tables.snapshots);
    assert forall|i: int| 0 <= i < tables.sites.len() implies (#[trigger] after.sites[i]).id
        == tables.sites[i].id && after.sites[i].url == tables.sites[i].url
        && after.sites[i].check_interval_seconds == tables.sites[i].check_interval_seconds by {}
    if n > 0 {
        assert(tables.snapshots.last() == tables.snapshots[n - 1]);
        assert(tables.changes.last() == tables.changes[n - 1]);
        assert(tables.snapshots[n - 1].id >= 1);
        assert(tables.changes[n - 1].id >= 1);
    }
    assert(after.sites_valid()) by {
        assert forall|i: int| 0 <= i < after.sites.len() implies (#[trigger] after.sites[i]).valid() by {
            assert(tables.sites[i].valid());
        }
        assert forall|i: int, j: int|
            #![trigger after.sites[i], after.sites[j]]
            0 <= i < j < after.sites.len() implies after.sites[i].id < after.sites[j].id
            && after.sites[i].url != after.sites[j].url by {
            assert(tables.sites[i].id < tables.sites[j].id);
            assert(tables.sites[i].url != tables.sites[j].url);
        }
    }
    assert(after.snapshots_valid()) by {
        assert forall|k: int| 0 <= k < after.snapshots.len() implies (#[trigger] after.snapshots[k]).id
            >= 1 && after.has_site(after.snapshots[k].site_id) by {
            if k < n {
                assert(after.snapshots[k] == tables.snapshots[k]);
                let owner = tables.site_index(tables.snapshots[k].site_id);
                assert(tables.has_site(tables.snapshots[k].site_id));
                assert(after.sites[owner].id == tables.sites[owner].id);
            } else {
                assert(after.sites[at].id == id);
            }
        }
        assert forall|k: int, m: int|
            #![trigger after.snapshots[k], after.snapshots[m]]
            0 <= k < m < after.snapshots.len() implies after.snapshots[k].id < after.snapshots[m].id by {
            assert(after.snapshots[k] == tables.snapshots[k]);
            if m < n {
                assert(after.snapshots[m] == tables.snapshots[m]);
            } else if k < n - 1 {
                assert(tables.snapshots[k].id < tables.snapshots[n - 1].id);
            }
        }
    }
    assert(after.changes_valid()) by {
        assert forall|k: int| 0 <= k < after.changes.len() implies (#[trigger] after.changes[k]).id >= 1
            && after.change_matches(k) by {
            if k < n {
                assert(after.changes[k] == tables.changes[k]);
                assert(after.snapshots[k] == tables.snapshots[k]);
                assert(tables.changes[k].id >= 1 && tables.change_matches(k));
                assert(after.snapshots.take(k) =~= tables.snapshots.take(k));
            } else {
                assert(tables.pointer_matches(at));
            }
        }
        assert forall|k: int, m: int|
            #![trigger after.changes[k], after.changes[m]]
            0 <= k < m < after.changes.len() implies after.changes[k].id < after.changes[m].id by {
            assert(after.changes[k] == tables.changes[k]);
            if m < n {
                assert(after.changes[m] == tables.changes[m]);
            } else if k < n - 1 {
                assert(tables.changes[k].id < tables.changes[n - 1].id);
            }
        }
    }
    assert(after.pointers_valid()) by {
        assert forall|i: int| 0 <= i < after.sites.len() implies #[trigger] pointer_links(
            after.sites,
            after.snapshots,
            i,
        ) by {
            assert(tables.pointer_matches(i));
            if i != at {
                assert(after.sites[i] == tables.sites[i]);
                if i < at {
                    assert(tables.sites[i].id < tables.sites[at].id);
                } else {
                    assert(tables.sites[at].id < tables.sites[i].id);
                }
            }
        }
    }
}

impl Store {
    /// The store with three empty tables.
    pub fn new() -> (store: Store)
        ensures
            store@.wf(),
            store@.sites.len() == 0,
            store@.snapshots.len() == 0,
            store@.changes.len() == 0,
    {
        Store { sites: Vec::new(), snapshots: Vec::new(), changes: Vec::new() }
    }

    /// Makes a store of rows read from outside, if they form consistent
    /// tables.
    pub fn from_rows(sites: Vec<Site>, snapshots: Vec<Snapshot>, changes: Vec<Change>) -> (store:
        Option<Store>)
        ensures
            store is Some <==> tables_of(sites@, snapshots@, changes@).wf(),
            store matches Some(s) ==> s@ == tables_of(sites@, snapshots@, changes@),
    {
        if sites_consistent(&sites) && snapshots_consistent(&sites, &snapshots)
            && changes_consistent(&snapshots, &changes) && pointers_consistent(&sites, &snapshots) {
            Some(Store { sites, snapshots, changes })
        } else {
            None
        }
    }

    /// Looks for the site `id`.
    fn find_site(&self, id: i64) -> (found: Option<usize>)
        requires
            self@.wf(),
        ensures
            found is Some <==> self@.has_site(id),
            found matches Some(i) ==> i < self.sites.len() && i == self@.site_index(id)
                && self.sites[i as int]@ == self@.site(id),
    {
        let mut i: usize = 0;
        while i < self.sites.len()
            invariant
                i <= self.sites.len(),
                self@.wf(),
                forall|k: int| 0 <= k < i ==> (#[trigger] self@.sites[k]).id != id,
            decreases self.sites.len() - i,
        {
            if self.sites[i].id == id {
                proof {
                    assert(self@.sites[i as int].id == id);
                    lemma_site_index_unique(self@, i as int);
                }
                return Some(i);
            }
            i += 1;
        }
        None
    }

    /// Tells whether a site is registered under `url`.
    fn url_taken(&self, url: &String) -> (taken: bool)
        ensures
            taken == self@.has_url(url@),
    {
        let mut i: usize = 0;
        while i < self.sites.len()
            invariant
                i <= self.sites.len(),
                forall|k: int| 0 <= k < i ==> (#[trigger] self@.sites[k]).url != url@,
            decreases self.sites.len() - i,
        {
            if self.sites[i].url == *url {
                assert(self@.sites[i as int].url == url@);
                return true;
            }
            i += 1;
        }
        false
    }
}

/// Tells whether a site has the identifier `id`.
pub fn contains_site(store: &Store, id: i64) -> (present: bool)
    requires
        store@.wf(),
    ensures
        present == store@.has_site(id),
{
    store.find_site(id).is_some()
}

/// All sites, in the order of their identifiers.
pub fn get_sites(store: &Store) -> (sites: Vec<Site>)
    requires
        store@.wf(),
    ensures
        site_views(sites@) == store@.sites,
        forall|i: int, j: int| 0 <= i < j < sites.len() ==> sites[i].id < sites[j].id,
{
    let mut sites: Vec<Site> = Vec::new();
    let mut i: usize = 0;
    while i < store.sites.len()
        invariant
            i <= store.sites.len(),
            sites@ == store.sites@.take(i as int),
        decreases store.sites.len() - i,
    {
        sites.push(store.sites[i].clone());
        assert(sites@ =~= store.sites@.take(i + 1));
        i += 1;
    }
    proof {
        assert(sites@ =~= store.sites@);
        assert forall|i: int, j: int| 0 <= i < j < sites.len() implies sites[i].id < sites[j].id by {
            assert(store@.sites[i].id < store@.sites[j].id);
        }
    }
    sites
}

/// The site `id`, or `NotFound` when no site has that identifier.
pub fn get_site(store: &Store, id: i64) -> (found: Result<Site, StoreError>)
    requires
        store@.wf(),
    ensures
        found is Ok <==> store@.has_site(id),
        found matches Ok(site) ==> site@ == store@.site(id) && site.id == id,
        found matches Err(e) ==> e == StoreError::NotFound,
{
    match store.find_site(id) {
        Some(i) => {
            let site = store.sites[i].clone();
            proof {
                assert(store@.sites[store@.site_index(id)].id == id);
            }
            Ok(site)
        },
        None => Err(StoreError::NotFound),
    }
}

/// Registers `new` with the creation time `now`.
///
/// The site gets the identifier after the greatest one in use, has never
/// been checked and has no snapshot. A URL that is already registered is
/// refused with `DuplicateUrl`; when the table has no identifier left, the
/// result is `StorageFailure`. A refusal leaves the store as it was.
pub fn create_site_at(store: &mut Store, new: NewSite, now: &str) -> (created: Result<Site, StoreError>)
    requires
        old(store)@.wf(),
        new@.valid(),
    ensures
        final(store)@.wf(),
        created is Ok <==> old(store)@.can_create(new@),
        created matches Ok(site) ==> site@ == old(store)@.created_site(new@, now@)
            && final(store)@ == old(store)@.create(new@, now@),
        created is Err ==> final(store)@ == old(store)@,
        created matches Err(e) ==> (e == StoreError::DuplicateUrl <==> old(store)@.has_url(new@.url)),
        created matches Err(e) ==> (e == StoreError::StorageFailure <==> !old(store)@.has_url(
            new@.url,
        )),
{
    if store.url_taken(&new.url) {
        return Err(StoreError::DuplicateUrl);
    }
    let n = store.sites.len();
    let id: i64 = if n == 0 {
        1
    } else {
        let last = store.sites[n - 1].id;
        assert(store@.sites.last() == store@.sites[n - 1]);
        if last == i64::MAX {
            return Err(StoreError::StorageFailure);
        }
        last + 1
    };
    let site = Site::register(id, new, now);
    let copy = site.clone();
    proof {
        lemma_create_keeps_wf(store@, new@, now@);
        assert(site_views(store.sites@.push(site)) =~= site_views(store.sites@).push(site@));
    }
    store.sites.push(site);
    Ok(copy)
}

/// Adds one to the identifier of the last row of a table, if that fits.
fn next_id(last: Option<i64>) -> (next: Option<i64>)
    ensures
        next is Some <==> following(last) <= i64::MAX,
        next matches Some(id) ==> id == following(last),
{
    match last {
        None => Some(1),
        Some(id) => if id == i64::MAX {
            None
        } else {
            Some(id + 1)
        },
    }
}

/// All snapshots, in the order of their identifiers.
pub fn get_snapshots(store: &Store) -> (snapshots: Vec<Snapshot>)
    ensures
        snapshot_views(snapshots@) == store@.snapshots,
{
    let mut snapshots: Vec<Snapshot> = Vec::new();
    let mut i: usize = 0;
    while i < store.snapshots.len()
        invariant
            i <= store.snapshots.len(),
            snapshots@ == store.snapshots@.take(i as int),
        decreases store.snapshots.len() - i,
    {
        snapshots.push(store.snapshots[i].clone());
        assert(snapshots@ =~= store.snapshots@.take(i + 1));
        i += 1;
    }
    assert(snapshots@ =~= store.snapshots@);
    snapshots
}

/// All changes, in the order of their identifiers.
pub fn get_changes(store: &Store) -> (changes: Vec<Change>)
    ensures
        change_views(changes@) == store@.changes,
{
    let mut changes: Vec<Change> = Vec::new();
    let mut i: usize = 0;
    while i < store.changes.len()
        invariant
            i <= store.changes.len(),
            changes@ == store.changes@.take(i as int),
        decreases store.changes.len() - i,
    {
        changes.push(store.changes[i].clone());
        assert(changes@ =~= store.changes@.take(i + 1));
        i += 1;
    }
    assert(changes@ =~= store.changes@);
    changes
}

/// The last snapshot of the site `id`, if it has one.
pub fn last_snapshot(store: &Store, id: i64) -> (last: Option<Snapshot>)
    ensures
        last is Some <==> store@.last_snapshot(id) is Some,
        last matches Some(snapshot) ==> Some(snapshot@) == store@.last_snapshot(id),
{
    let mut i: usize = store.snapshots.len();
    proof {
        assert(store@.snapshots.take(i as int) =~= store@.snapshots);
    }
    while i > 0
        invariant
            i <= store.snapshots.len(),
            store@.last_snapshot(id) == latest_snapshot(store@.snapshots.take(i as int), id),
        decreases i,
    {
        proof {
            let seen = store@.snapshots.take(i as int);
            assert(seen.last() == store@.snapshots[i - 1]);
            assert(seen.drop_last() =~= store@.snapshots.take(i - 1));
        }
        i -= 1;
        if store.snapshots[i].site_id == id {
            return Some(store.snapshots[i].clone());
        }
    }
    None
}

/// Writes the result of a poll of the site `id` at `now` that saw new
/// content: a snapshot of `content` with its `fingerprint`, a change from
/// the site's last snapshot so far (none on the first capture) to the new
/// one, and the site's two pointers. The three writes are made together or
/// not at all.
///
/// An unknown site gives `NotFound`. When the snapshot or the change table
/// has no identifier left, the result is `StorageFailure`.
pub fn record_poll_result_at(
    store: &mut Store,
    id: i64,
    content: String,
    fingerprint: String,
    summary: String,
    now: &str,
) -> (recorded: Result<Change, StoreError>)
    requires
        old(store)@.wf(),
    ensures
        final(store)@.wf(),
        recorded is Ok <==> old(store)@.can_record(id),
        recorded matches Ok(change) ==> change@ == old(store)@.recorded_change(id, summary@, now@)
            && final(store)@ == old(store)@.record(id, content@, fingerprint@, summary@, now@),
        recorded is Err ==> final(store)@ == old(store)@,
        recorded matches Err(e) ==> (e == StoreError::NotFound <==> !old(store)@.has_site(id)),
        recorded matches Err(e) ==> (e == StoreError::StorageFailure <==> old(store)@.has_site(id)),
{
    let at = match store.find_site(id) {
        Some(at) => at,
        None => {
            return Err(StoreError::NotFound);
        },
    };
    let n = store.snapshots.len();
    let m = store.changes.len();
    proof {
        if n > 0 {
            assert(store@.snapshots.last() == store@.snapshots[n - 1]);
        }
        if m > 0 {
            assert(store@.changes.last() == store@.changes[m - 1]);
        }
    }
    let last_snapshot_id = if n == 0 {
        None
    } else {
        Some(store.snapshots[n - 1].id)
    };
    let last_change_id = if m == 0 {
        None
    } else {
        Some(store.changes[m - 1].id)
    };
    let (snapshot_id, change_id) = match (next_id(last_snapshot_id), next_id(last_change_id)) {
        (Some(snapshot_id), Some(change_id)) => (snapshot_id, change_id),
        _ => {
            return Err(StoreError::StorageFailure);
        },
    };
    let mut site = store.sites[at].clone();
    let change = Change {
        id: change_id,
        site_id: id,
        old_snapshot_id: site.last_snapshot_id,
        new_snapshot_id: snapshot_id,
        created_at: now.to_owned(),
        summary,
    };
    let snapshot = Snapshot {
        id: snapshot_id,
        site_id: id,
        created_at: now.to_owned(),
        content_hash: fingerprint,
        content,
    };
    site.last_checked_at = Some(now.to_owned());
    site.last_snapshot_id = Some(snapshot_id);
    let copy = change.clone();
    proof {
        lemma_record_keeps_wf(store@, id, content@, fingerprint@, summary@, now@);
        assert(site_views(store.sites@.update(at as int, site)) =~= site_views(store.sites@).update(
            at as int,
            site@,
        ));
        assert(snapshot_views(store.snapshots@.push(snapshot)) =~= snapshot_views(
            store.snapshots@,
        ).push(snapshot@));
        assert(change_views(store.changes@.push(change)) =~= change_views(store.changes@).push(
            change@,
        ));
        assert(site@ == store@.site(id).captured(snapshot_id, now@));
    }
    store.sites[at] = site;
    store.snapshots.push(snapshot);
    store.changes.push(change);
    Ok(copy)
}

/// Notes that the site `id` was checked at `now`, whether or not the check
/// succeeded. Nothing else changes. An unknown site gives `NotFound`.
pub fn mark_checked(store: &mut Store, id: i64, now: &str) -> (marked: Result<(), StoreError>)
    requires
        old(store)@.wf(),
    ensures
        final(store)@.wf(),
        marked is Ok <==> old(store)@.has_site(id),
        marked is Ok ==> final(store)@ == old(store)@.check(id, now@),
        marked is Err ==> final(store)@ == old(store)@,
        marked matches Err(e) ==> e == StoreError::NotFound,
{
    let at = match store.find_site(id) {
        Some(at) => at,
        None => {
            return Err(StoreError::NotFound);
        },
    };
    let mut site = store.sites[at].clone();
    site.last_checked_at = Some(now.to_owned());
    proof {
        lemma_check_keeps_wf(store@, id, now@);
        assert(site_views(store.sites@.update(at as int, site)) =~= site_views(store.sites@).update(
            at as int,
            site@,
        ));
        assert(site@ == store@.site(id).checked(now@));
    }
    store.sites[at] = site;
    Ok(())
}

/// Registers `new`, with the time of the call as its creation time.
///
/// What holds of `create_site_at` holds here for the time that the clock
/// gave, which is the `created_at` of the site returned.
pub fn create_site(store: &mut Store, new: NewSite) -> (created: Result<Site, StoreError>)
    requires
        old(store)@.wf(),
        new@.valid(),
    ensures
        final(store)@.wf(),
        created is Ok <==> old(store)@.can_create(new@),
        created matches Ok(site) ==> site@ == old(store)@.created_site(new@, site@.created_at)
            && final(store)@ == old(store)@.create(new@, site@.created_at),
        created is Err ==> final(store)@ == old(store)@,
        created matches Err(e) ==> (e == StoreError::DuplicateUrl <==> old(store)@.has_url(new@.url)),
        created matches Err(e) ==> (e == StoreError::StorageFailure <==> !old(store)@.has_url(
            new@.url,
        )),
{
    let instant = now();
    create_site_at(store, new, instant.text.as_str())
}

/// Writes the result of a poll of the site `id` that saw new content, with
/// the time of the call as the time of the poll.
///
/// What holds of `record_poll_result_at` holds here for the time that the
/// clock gave, which is the `created_at` of the change returned.
pub fn record_poll_result(
    store: &mut Store,
    id: i64,
    content: String,
    fingerprint: String,
    summary: String,
) -> (recorded: Result<Change, StoreError>)
    requires
        old(store)@.wf(),
    ensures
        final(store)@.wf(),
        recorded is Ok <==> old(store)@.can_record(id),
        recorded matches Ok(change) ==> change@ == old(store)@.recorded_change(
            id,
            summary@,
            change@.created_at,
        ) && final(store)@ == old(store)@.record(
            id,
            content@,
            fingerprint@,
            summary@,
            change@.created_at,
        ),
        recorded is Err ==> final(store)@ == old(store)@,
        recorded matches Err(e) ==> (e == StoreError::NotFound <==> !old(store)@.has_site(id)),
        recorded matches Err(e) ==> (e == StoreError::StorageFailure <==> old(store)@.has_site(id)),
{
    let instant = now();
    record_poll_result_at(store, id, content, fingerprint, summary, instant.text.as_str())
}

} // verus!
