//! When a site is due, and which sites are being polled.
//!
//! A site is idle until its interval has passed since the last check, then
//! due until a poll of it begins, then polling until that poll completes.
//! At most one poll of a site is in flight at a time, and at most
//! `capacity` polls in all.

use crate::clock::{parse_rfc3339, rfc3339_seconds};
use crate::models::site::{Site, SiteView};
use vstd::prelude::*;

verus! {

/// Where a site stands in its polling cycle.
#[derive(Debug, Clone, Copy, PartialEq, Eq, Structural)]
pub enum SiteState {
    /// Checked less than an interval ago, and not being polled.
    Idle,
    /// Never checked, or checked at least an interval ago, and not being
    /// polled.
    Due,
    /// A poll is in flight.
    Polling,
}

/// The answer to a request to begin a poll.
#[derive(Debug, Clone, Copy, PartialEq, Eq, Structural)]
pub enum Admission {
    /// The poll begins: the site is now polling.
    Started,
    /// A poll of the site is in flight already; this one is skipped.
    InFlight,
    /// The site is not due yet.
    NotDue,
    /// The site is due, but as many polls are in flight as the scheduler
    /// admits.
    Saturated,
}

/// Tells whether a site last checked at `last_checked` (never, if `None`)
/// with the given interval is due at `now`, all in seconds.
pub open spec fn due_at(last_checked: Option<i64>, interval: i64, now: i64) -> bool {
    match last_checked {
        Some(last) => now - last >= interval,
        None => true,
    }
}

/// The time of a site's last check in seconds since the Unix epoch. A site
/// whose stored time cannot be read counts as never checked.
pub open spec fn last_checked_seconds(site: SiteView) -> Option<i64> {
    match site.last_checked_at {
        Some(text) => rfc3339_seconds(text),
        None => None,
    }
}

/// Tells whether a site is due at `now`.
pub open spec fn site_due(site: SiteView, now: i64) -> bool {
    due_at(last_checked_seconds(site), site.check_interval_seconds, now)
}

/// Tells whether the interval has passed since the last check.
pub fn is_due(last_checked: Option<i64>, interval: i64, now: i64) -> (due: bool)
    ensures
        due == due_at(last_checked, interval, now),
{
    match last_checked {
        Some(last) => {
            let elapsed: i128 = now as i128 - last as i128;
            elapsed >= interval as i128
        },
        None => true,
    }
}

/// The time of the site's last check in seconds since the Unix epoch;
/// `None` for a site that was never checked or whose stored time cannot be
/// read.
pub fn last_checked(site: &Site) -> (seconds: Option<i64>)
    ensures
        seconds == last_checked_seconds(site@),
{
    match &site.last_checked_at {
        Some(text) => parse_rfc3339(text.as_str()),
        None => None,
    }
}

/// Tells whether `site` is due at `now`, in seconds since the Unix epoch.
pub fn is_site_due(site: &Site, now: i64) -> (due: bool)
    ensures
        due == site_due(site@, now),
{
    is_due(last_checked(site), site.check_interval_seconds, now)
}

/// The polls in flight, and how many there may be.
pub struct Scheduler {
    polling: Vec<i64>,
    capacity: usize,
}

/// The mathematical value of a [`Scheduler`].
pub struct SchedulerView {
    /// The identifiers of the sites that are being polled.
    pub polling: Set<i64>,
    /// The greatest number of polls in flight.
    pub capacity: nat,
}

impl SchedulerView {
    /// No more polls are in flight than the scheduler admits.
    pub open spec fn wf(self) -> bool {
        self.polling.finite() && self.polling.len() <= self.capacity
    }

    /// Where `site` stands at `now`.
    pub open spec fn state_of(self, site: SiteView, now: i64) -> SiteState {
        if self.polling.contains(site.id) {
            SiteState::Polling
        } else if site_due(site, now) {
            SiteState::Due
        } else {
            SiteState::Idle
        }
    }

    /// The answer to a request at `now` to begin a poll of `site`.
    pub open spec fn admission(self, site: SiteView, now: i64) -> Admission {
        if self.polling.contains(site.id) {
            Admission::InFlight
        } else if !site_due(site, now) {
            Admission::NotDue
        } else if self.polling.len() >= self.capacity {
            Admission::Saturated
        } else {
            Admission::Started
        }
    }

    /// The scheduler after a poll of the site `id` has begun.
    pub open spec fn begun(self, id: i64) -> SchedulerView {
        SchedulerView { polling: self.polling.insert(id), ..self }
    }

    /// The scheduler after the poll of the site `id` has completed.
    pub open spec fn finished(self, id: i64) -> SchedulerView {
        SchedulerView { polling: self.polling.remove(id), ..self }
    }
}

/// Once a poll of a site has begun, every further request to begin one for
/// that site is answered with `InFlight`, whatever the time and whatever has
/// become of the site's row: exactly one poll of it is in flight. When it
/// completes, the scheduler is as it was before the poll began.
pub proof fn law_no_overlapping_polls(
    scheduler: SchedulerView,
    site: SiteView,
    now: i64,
    later_site: SiteView,
    later: i64,
)
    requires
        scheduler.wf(),
        scheduler.admission(site, now) == Admission::Started,
        later_site.id == site.id,
    ensures
        scheduler.begun(site.id).wf(),
        scheduler.begun(site.id).admission(later_site, later) == Admission::InFlight,
        scheduler.begun(site.id).state_of(later_site, later) == SiteState::Polling,
        scheduler.begun(site.id).polling.len() == scheduler.polling.len() + 1,
        scheduler.begun(site.id).finished(site.id) == scheduler,
{
    assert(scheduler.polling.insert(site.id).remove(site.id) =~= scheduler.polling);
}

/// When the poll of a site has completed, the site is idle or due, and is
/// due exactly when its interval has passed since the last check.
pub proof fn law_completed_poll_leaves_polling(
    scheduler: SchedulerView,
    site: SiteView,
    now: i64,
)
    ensures
        scheduler.finished(site.id).state_of(site, now) == if site_due(site, now) {
            SiteState::Due
        } else {
            SiteState::Idle
        },
{
}

impl View for Scheduler {
    type V = SchedulerView;

    closed spec fn view(&self) -> SchedulerView {
        SchedulerView { polling: self.polling@.to_set(), capacity: self.capacity as nat }
    }
}

impl Scheduler {
    /// No site is listed twice, and no more sites than the scheduler admits.
    pub closed spec fn wf(&self) -> bool {
        self.polling@.no_duplicates() && self.polling@.len() <= self.capacity
    }

    /// A well-formed scheduler has a well-formed value, with as many polls
    /// in flight as the list is long.
    proof fn lemma_count(&self)
        requires
            self.wf(),
        ensures
            self@.wf(),
            self@.polling.len() == self.polling@.len(),
    {
        vstd::seq_lib::seq_to_set_is_finite(self.polling@);
        self.polling@.unique_seq_to_set();
    }

    /// A scheduler with no poll in flight that admits `capacity` polls at a
    /// time.
    pub fn new(capacity: usize) -> (scheduler: Scheduler)
        ensures
            scheduler.wf(),
            scheduler@.wf(),
            scheduler@.polling == Set::<i64>::empty(),
            scheduler@.capacity == capacity,
    {
        let scheduler = Scheduler { polling: Vec::new(), capacity };
        proof {
            assert(scheduler.polling@.to_set() =~= Set::<i64>::empty());
            scheduler.lemma_count();
        }
        scheduler
    }

    /// The position of `id` among the polls in flight.
    fn position(&self, id: i64) -> (found: Option<usize>)
        ensures
            found is Some <==> self@.polling.contains(id),
            found matches Some(i) ==> i < self.polling.len() && self.polling[i as int] == id,
    {
        let mut i: usize = 0;
        while i < self.polling.len()
            invariant
                i <= self.polling.len(),
                forall|k: int| 0 <= k < i ==> self.polling[k] != id,
            decreases self.polling.len() - i,
        {
            if self.polling[i] == id {
                assert(self.polling@.contains(id));
                return Some(i);
            }
            i += 1;
        }
        assert(!self.polling@.contains(id));
        None
    }

    /// Tells whether a poll of the site `id` is in flight.
    pub fn is_polling(&self, id: i64) -> (polling: bool)
        ensures
            polling == self@.polling.contains(id),
    {
        self.position(id).is_some()
    }

    /// The number of polls in flight.
    pub fn in_flight(&self) -> (count: usize)
        requires
            self.wf(),
        ensures
            count == self@.polling.len(),
    {
        proof {
            self.lemma_count();
        }
        self.polling.len()
    }

    /// Where `site` stands at `now`, in seconds since the Unix epoch.
    pub fn state_of(&self, site: &Site, now: i64) -> (state: SiteState)
        ensures
            state == self@.state_of(site@, now),
    {
        if self.is_polling(site.id) {
            SiteState::Polling
        } else if is_site_due(site, now) {
            SiteState::Due
        } else {
            SiteState::Idle
        }
    }

    /// Asks to begin a poll of `site` at `now`, in seconds since the Unix
    /// epoch. The poll begins only if the site is due, no poll of it is in
    /// flight and the scheduler admits one more; the site is then polling
    /// until `finish` is called for it. Otherwise nothing changes.
    pub fn try_begin(&mut self, site: &Site, now: i64) -> (admission: Admission)
        requires
            old(self).wf(),
        ensures
            final(self).wf(),
            final(self)@.wf(),
            admission == old(self)@.admission(site@, now),
            admission == Admission::Started ==> final(self)@ == old(self)@.begun(site.id),
            admission != Admission::Started ==> final(self)@ == old(self)@,
    {
        proof {
            self.lemma_count();
        }
        if self.is_polling(site.id) {
            return Admission::InFlight;
        }
        if !is_site_due(site, now) {
            return Admission::NotDue;
        }
        if self.polling.len() >= self.capacity {
            return Admission::Saturated;
        }
        let ghost before = self.polling@;
        self.polling.push(site.id);
        proof {
            assert(self.polling@.to_set() =~= before.to_set().insert(site.id)) by {
                assert forall|x: i64| self.polling@.to_set().contains(x) == before.to_set().insert(
                    site.id,
                ).contains(x) by {
                    if before.contains(x) {
                        let k = choose|k: int| 0 <= k < before.len() && before[k] == x;
                        assert(self.polling@[k] == x);
                    }
                    if x == site.id {
                        assert(self.polling@[before.len() as int] == x);
                    }
                }
            }
            assert(self.polling@.no_duplicates()) by {
                assert forall|i: int, j: int|
                    0 <= i < self.polling@.len() && 0 <= j < self.polling@.len() && i
                        != j implies self.polling@[i] != self.polling@[j] by {
                    if i < before.len() {
                        assert(before[i] == self.polling@[i]);
                        assert(before.contains(before[i]));
                    }
                    if j < before.len() {
                        assert(before[j] == self.polling@[j]);
                        assert(before.contains(before[j]));
                    }
                }
            }
            self.lemma_count();
        }
        Admission::Started
    }

    /// Notes that the poll of the site `id` has completed, successfully or
    /// not: the site is no longer polling. Tells whether a poll of it was in
    /// flight.
    pub fn finish(&mut self, id: i64) -> (was_polling: bool)
        requires
            old(self).wf(),
        ensures
            final(self).wf(),
            final(self)@.wf(),
            was_polling == old(self)@.polling.contains(id),
            final(self)@ == old(self)@.finished(id),
    {
        proof {
            self.lemma_count();
        }
        match self.position(id) {
            None => {
                assert(self.polling@.to_set().remove(id) =~= self.polling@.to_set());
                false
            },
            Some(at) => {
                let ghost before = self.polling@;
                self.polling.remove(at);
                proof {
                    let after = self.polling@;
                    assert(after =~= before.remove(at as int));
                    assert forall|k: int| 0 <= k < after.len() implies after[k] == before[if k < at {
                        k
                    } else {
                        k + 1
                    }] by {}
                    assert(after.no_duplicates());
                    assert(after.to_set() =~= before.to_set().remove(id)) by {
                        assert forall|x: i64| after.to_set().contains(x) == before.to_set().remove(
                            id,
                        ).contains(x) by {
                            if after.contains(x) {
                                let k = choose|k: int| 0 <= k < after.len() && after[k] == x;
                                let source = if k < at {
                                    k
                                } else {
                                    k + 1
                                };
                                assert(before[source] == x);
                                assert(before.contains(x));
                                assert(source != at);
                            }
                            if before.contains(x) && x != id {
                                let k = choose|k: int| 0 <= k < before.len() && before[k] == x;
                                let target = if k < at {
                                    k
                                } else {
                                    k - 1
                                };
                                assert(after[target] == x);
                            }
                        }
                    }
                    self.lemma_count();
                }
                true
            },
        }
    }
}

} // verus!
