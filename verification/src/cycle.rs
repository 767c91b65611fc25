//! The polling cycle of a site: which sites are due, the beginning of a
//! poll, and its completion with whatever the fetch came back with.

use crate::clock::now;
use crate::fetch::{content_view, FetchError};
use crate::models::site::SiteView;
use crate::diff::Outcome;
use crate::poll::{can_poll, poll_at, poll_outcome, polled, PollReport};
use crate::scheduler::{Admission, Scheduler, SchedulerView, SiteState};
use crate::store::{get_site, get_sites, mark_checked, site_views, Store, StoreError, StoreView};
use vstd::prelude::*;

verus! {

/// Why a poll wrote no result.
#[derive(Debug, Clone, Copy, PartialEq, Eq, Structural)]
pub enum PollError {
    /// The fetch gave no content.
    Fetch(FetchError),
    /// The store refused the result.
    Store(StoreError),
}

/// The identifiers of the sites among `sites` that are due at `now`, in the
/// order of `sites`.
pub open spec fn due_ids(sites: Seq<SiteView>, scheduler: SchedulerView, now: i64) -> Seq<i64>
    decreases sites.len(),
{
    if sites.len() == 0 {
        Seq::empty()
    } else if scheduler.state_of(sites.last(), now) == SiteState::Due {
        due_ids(sites.drop_last(), scheduler, now).push(sites.last().id)
    } else {
        due_ids(sites.drop_last(), scheduler, now)
    }
}

/// The sites that are due at `now`, in seconds since the Unix epoch, in the
/// order of their identifiers.
pub fn due_sites(store: &Store, scheduler: &Scheduler, now: i64) -> (due: Vec<i64>)
    requires
        store@.wf(),
    ensures
        due@ == due_ids(store@.sites, scheduler@, now),
{
    let sites = get_sites(store);
    let mut due: Vec<i64> = Vec::new();
    let mut i: usize = 0;
    while i < sites.len()
        invariant
            i <= sites.len(),
            due@ == due_ids(site_views(sites@).take(i as int), scheduler@, now),
        decreases sites.len() - i,
    {
        proof {
            let seen = site_views(sites@).take(i + 1);
            assert(seen.drop_last() =~= site_views(sites@).take(i as int));
            assert(seen.last() == sites[i as int]@);
        }
        if scheduler.state_of(&sites[i], now) == SiteState::Due {
            due.push(sites[i].id);
        }
        i += 1;
    }
    proof {
        assert(site_views(sites@).take(i as int) =~= site_views(sites@));
    }
    due
}

/// Asks to begin a poll of the site `id` at `now`, in seconds since the
/// Unix epoch. An unknown site gives `NotFound`; else the scheduler decides
/// on the site's row as the store holds it.
pub fn begin_poll(store: &Store, scheduler: &mut Scheduler, id: i64, now: i64) -> (begun: Result<
    Admission,
    StoreError,
>)
    requires
        store@.wf(),
        old(scheduler).wf(),
    ensures
        final(scheduler).wf(),
        begun is Ok <==> store@.has_site(id),
        begun matches Ok(admission) ==> admission == old(scheduler)@.admission(
            store@.site(id),
            now,
        ),
        begun == Ok::<Admission, StoreError>(Admission::Started) ==> final(scheduler)@
            == old(scheduler)@.begun(id),
        begun != Ok::<Admission, StoreError>(Admission::Started) ==> final(scheduler)@
            == old(scheduler)@,
        begun matches Err(e) ==> e == StoreError::NotFound,
{
    match get_site(store, id) {
        Ok(site) => Ok(scheduler.try_begin(&site, now)),
        Err(e) => Err(e),
    }
}

/// What the completion of a poll of the site `id` reports, given what the
/// fetch came back with.
pub open spec fn completion(tables: StoreView, id: i64, fetched: Result<Seq<char>, FetchError>) -> Result<
    Outcome,
    PollError,
> {
    match fetched {
        Err(e) => Err(PollError::Fetch(e)),
        Ok(content) => if !tables.has_site(id) {
            Err(PollError::Store(StoreError::NotFound))
        } else if !can_poll(tables, id, content) {
            Err(PollError::Store(StoreError::StorageFailure))
        } else {
            Ok(poll_outcome(tables, id, content))
        },
    }
}

/// The tables after the completion at `now` of a poll of the site `id`.
/// Fetched content that can be written is written as `polled` says. In
/// every other case the poll failed: a site that exists is still noted as
/// checked at `now`, so that it is not due again before its interval has
/// passed, and nothing else changes.
pub open spec fn completed(
    tables: StoreView,
    id: i64,
    fetched: Result<Seq<char>, FetchError>,
    now: Seq<char>,
) -> StoreView {
    if !tables.has_site(id) {
        tables
    } else {
        match fetched {
            Ok(content) => if can_poll(tables, id, content) {
                polled(tables, id, content, now)
            } else {
                tables.check(id, now)
            },
            Err(_) => tables.check(id, now),
        }
    }
}

/// Completes the poll of the site `id` at `now` with what the fetch came
/// back with: the result is written, or the failure noted, and the site is
/// no longer polling, success or failure alike.
pub fn complete_poll_at(
    store: &mut Store,
    scheduler: &mut Scheduler,
    id: i64,
    fetched: Result<String, FetchError>,
    now: &str,
) -> (report: Result<PollReport, PollError>)
    requires
        old(store)@.wf(),
        old(scheduler).wf(),
    ensures
        final(store)@.wf(),
        final(scheduler).wf(),
        final(scheduler)@ == old(scheduler)@.finished(id),
        final(store)@ == completed(old(store)@, id, content_view(fetched), now@),
        report is Ok <==> completion(old(store)@, id, content_view(fetched)) is Ok,
        report matches Ok(r) ==> Ok::<Outcome, PollError>(r.outcome) == completion(
            old(store)@,
            id,
            content_view(fetched),
        ) && (r.change is Some <==> r.outcome != Outcome::Unchanged),
        report matches Err(e) ==> Err::<Outcome, PollError>(e) == completion(
            old(store)@,
            id,
            content_view(fetched),
        ),
{
    scheduler.finish(id);
    match fetched {
        Ok(content) => {
            match poll_at(store, id, content, now) {
                Ok(report) => Ok(report),
                Err(e) => {
                    match e {
                        StoreError::NotFound => {},
                        _ => {
                            let _ = mark_checked(store, id, now);
                        },
                    }
                    Err(PollError::Store(e))
                },
            }
        },
        Err(e) => {
            let _ = mark_checked(store, id, now);
            Err(PollError::Fetch(e))
        },
    }
}

/// Completes the poll of the site `id` with what the fetch came back with,
/// at the time of the call. What holds of `complete_poll_at` holds here for
/// some time that the clock gave.
pub fn complete_poll(
    store: &mut Store,
    scheduler: &mut Scheduler,
    id: i64,
    fetched: Result<String, FetchError>,
) -> (report: Result<PollReport, PollError>)
    requires
        old(store)@.wf(),
        old(scheduler).wf(),
    ensures
        final(store)@.wf(),
        final(scheduler).wf(),
        final(scheduler)@ == old(scheduler)@.finished(id),
        exists|at: Seq<char>|
            final(store)@ == #[trigger] completed(old(store)@, id, content_view(fetched), at),
        report is Ok <==> completion(old(store)@, id, content_view(fetched)) is Ok,
        report matches Ok(r) ==> Ok::<Outcome, PollError>(r.outcome) == completion(
            old(store)@,
            id,
            content_view(fetched),
        ) && (r.change is Some <==> r.outcome != Outcome::Unchanged),
        report matches Err(e) ==> Err::<Outcome, PollError>(e) == completion(
            old(store)@,
            id,
            content_view(fetched),
        ),
{
    let instant = now();
    complete_poll_at(store, scheduler, id, fetched, instant.text.as_str())
}

} // verus!
