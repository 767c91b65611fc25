//! Checks that rows read from outside form consistent tables.

use crate::models::change::Change;
use crate::models::site::Site;
use crate::models::snapshot::Snapshot;
use crate::store::{
    change_links, change_views, id_of, latest_snapshot, pointer_links, site_exists, site_views,
    snapshot_views, valid_changes, valid_pointers, valid_sites, valid_snapshots,
};
use vstd::prelude::*;

verus! {

/// Checks the site rows: valid, with ascending identifiers and distinct
/// URLs.
pub fn sites_consistent(sites: &Vec<Site>) -> (ok: bool)
    ensures
        ok == valid_sites(site_views(sites@)),
{
    let ghost rows = site_views(sites@);
    let mut i: usize = 0;
    while i < sites.len()
        invariant
            i <= sites.len(),
            rows == site_views(sites@),
            forall|a: int| 0 <= a < i ==> (#[trigger] rows[a]).valid(),
            forall|a: int, b: int|
                #![trigger rows[a], rows[b]]
                0 <= a < b < i ==> rows[a].id < rows[b].id,
            forall|a: int, b: int|
                #![trigger rows[a], rows[b]]
                0 <= a < b < i ==> rows[a].url != rows[b].url,
        decreases sites.len() - i,
    {
        assert(rows[i as int] == sites[i as int]@);
        if sites[i].id < 1 || sites[i].check_interval_seconds < 1 {
            assert(!rows[i as int].valid());
            return false;
        }
        if i > 0 {
            assert(rows[i - 1] == sites[i - 1]@);
            if sites[i - 1].id >= sites[i].id {
                assert(!(rows[i - 1].id < rows[i as int].id));
                return false;
            }
        }
        let mut j: usize = 0;
        while j < i
            invariant
                j <= i < sites.len(),
                rows == site_views(sites@),
                forall|a: int| 0 <= a < j ==> (#[trigger] rows[a]).url != rows[i as int].url,
            decreases i - j,
        {
            assert(rows[j as int] == sites[j as int]@);
            assert(rows[i as int] == sites[i as int]@);
            if sites[j].url == sites[i].url {
                assert(!(rows[j as int].url != rows[i as int].url));
                return false;
            }
            j += 1;
        }
        i += 1;
    }
    true
}

/// Looks for a site with the identifier `id`.
fn site_known(sites: &Vec<Site>, id: i64) -> (known: bool)
    ensures
        known == site_exists(site_views(sites@), id),
{
    let mut i: usize = 0;
    while i < sites.len()
        invariant
            i <= sites.len(),
            forall|a: int| 0 <= a < i ==> (#[trigger] site_views(sites@)[a]).id != id,
        decreases sites.len() - i,
    {
        assert(site_views(sites@)[i as int] == sites[i as int]@);
        if sites[i].id == id {
            return true;
        }
        i += 1;
    }
    false
}

/// Checks the snapshot rows: each belongs to a site, with ascending
/// identifiers from one.
pub fn snapshots_consistent(sites: &Vec<Site>, snapshots: &Vec<Snapshot>) -> (ok: bool)
    ensures
        ok == valid_snapshots(site_views(sites@), snapshot_views(snapshots@)),
{
    let ghost owners = site_views(sites@);
    let ghost rows = snapshot_views(snapshots@);
    let mut k: usize = 0;
    while k < snapshots.len()
        invariant
            k <= snapshots.len(),
            owners == site_views(sites@),
            rows == snapshot_views(snapshots@),
            forall|a: int|
                0 <= a < k ==> (#[trigger] rows[a]).id >= 1 && site_exists(owners, rows[a].site_id),
            forall|a: int, b: int|
                #![trigger rows[a], rows[b]]
                0 <= a < b < k ==> rows[a].id < rows[b].id,
        decreases snapshots.len() - k,
    {
        assert(rows[k as int] == snapshots[k as int]@);
        if snapshots[k].id < 1 {
            assert(!(rows[k as int].id >= 1));
            return false;
        }
        if !site_known(sites, snapshots[k].site_id) {
            assert(!site_exists(owners, rows[k as int].site_id));
            return false;
        }
        if k > 0 {
            assert(rows[k - 1] == snapshots[k - 1]@);
            if snapshots[k - 1].id >= snapshots[k].id {
                assert(!(rows[k - 1].id < rows[k as int].id));
                return false;
            }
        }
        k += 1;
    }
    true
}

/// The identifier of the last snapshot of the site `id` among the first
/// `upto` rows.
fn latest_before(snapshots: &Vec<Snapshot>, upto: usize, id: i64) -> (latest: Option<i64>)
    requires
        upto <= snapshots.len(),
    ensures
        latest == id_of(latest_snapshot(snapshot_views(snapshots@).take(upto as int), id)),
{
    let ghost rows = snapshot_views(snapshots@);
    let mut i: usize = upto;
    while i > 0
        invariant
            i <= upto <= snapshots.len(),
            rows == snapshot_views(snapshots@),
            latest_snapshot(rows.take(upto as int), id) == latest_snapshot(rows.take(i as int), id),
        decreases i,
    {
        proof {
            let seen = rows.take(i as int);
            assert(seen.last() == rows[i - 1]);
            assert(seen.drop_last() =~= rows.take(i - 1));
            assert(rows[i - 1] == snapshots[i - 1]@);
        }
        i -= 1;
        if snapshots[i].site_id == id {
            return Some(snapshots[i].id);
        }
    }
    None
}

/// Compares two optional identifiers.
fn same_id(left: Option<i64>, right: Option<i64>) -> (same: bool)
    ensures
        same == (left == right),
{
    match (left, right) {
        (None, None) => true,
        (Some(a), Some(b)) => a == b,
        _ => false,
    }
}

/// Checks the change rows: one for each snapshot, naming it and the
/// site's last snapshot before it, with ascending identifiers from one.
pub fn changes_consistent(snapshots: &Vec<Snapshot>, changes: &Vec<Change>) -> (ok: bool)
    ensures
        ok == valid_changes(snapshot_views(snapshots@), change_views(changes@)),
{
    let ghost captured = snapshot_views(snapshots@);
    let ghost rows = change_views(changes@);
    if changes.len() != snapshots.len() {
        return false;
    }
    let mut k: usize = 0;
    while k < changes.len()
        invariant
            k <= changes.len(),
            changes.len() == snapshots.len(),
            captured == snapshot_views(snapshots@),
            rows == change_views(changes@),
            forall|a: int|
                0 <= a < k ==> (#[trigger] rows[a]).id >= 1 && change_links(captured, rows, a),
            forall|a: int, b: int|
                #![trigger rows[a], rows[b]]
                0 <= a < b < k ==> rows[a].id < rows[b].id,
        decreases changes.len() - k,
    {
        assert(rows[k as int] == changes[k as int]@);
        assert(captured[k as int] == snapshots[k as int]@);
        if changes[k].id < 1 {
            assert(!(rows[k as int].id >= 1));
            return false;
        }
        let previous = latest_before(snapshots, k, snapshots[k].site_id);
        if changes[k].site_id != snapshots[k].site_id || changes[k].new_snapshot_id
            != snapshots[k].id || !same_id(changes[k].old_snapshot_id, previous) {
            assert(rows[k as int].id >= 1 && !change_links(captured, rows, k as int));
            return false;
        }
        if k > 0 {
            assert(rows[k - 1] == changes[k - 1]@);
            if changes[k - 1].id >= changes[k].id {
                assert(!(rows[k - 1].id < rows[k as int].id));
                return false;
            }
        }
        k += 1;
    }
    true
}

/// Checks the sites' pointers: each names the site's last snapshot, and a
/// site with a snapshot has been checked.
pub fn pointers_consistent(sites: &Vec<Site>, snapshots: &Vec<Snapshot>) -> (ok: bool)
    ensures
        ok == valid_pointers(site_views(sites@), snapshot_views(snapshots@)),
{
    let ghost rows = site_views(sites@);
    let ghost captured = snapshot_views(snapshots@);
    let mut i: usize = 0;
    while i < sites.len()
        invariant
            i <= sites.len(),
            rows == site_views(sites@),
            captured == snapshot_views(snapshots@),
            forall|a: int| 0 <= a < i ==> #[trigger] pointer_links(rows, captured, a),
        decreases sites.len() - i,
    {
        assert(rows[i as int] == sites[i as int]@);
        let latest = latest_before(snapshots, snapshots.len(), sites[i].id);
        proof {
            assert(captured.take(snapshots.len() as int) =~= captured);
        }
        if !same_id(sites[i].last_snapshot_id, latest) || (sites[i].last_snapshot_id.is_some()
            && sites[i].last_checked_at.is_none()) {
            assert(!pointer_links(rows, captured, i as int));
            return false;
        }
        i += 1;
    }
    true
}

} // verus!
