//! Tracked sites.

use crate::text::{clone_text, text_of};
use vstd::prelude::*;

verus! {

/// A tracked URL, as stored.
#[derive(Debug)]
pub struct Site {
    pub id: i64,
    pub url: String,
    pub selector: Option<String>,
    pub check_interval_seconds: i64,
    pub created_at: String,
    pub last_checked_at: Option<String>,
    pub last_snapshot_id: Option<i64>,
}

/// What a registration supplies: everything the store does not assign.
#[derive(Debug)]
pub struct NewSite {
    pub url: String,
    pub selector: Option<String>,
    pub check_interval_seconds: i64,
}

/// The mathematical value of a [`Site`].
pub struct SiteView {
    pub id: i64,
    pub url: Seq<char>,
    pub selector: Option<Seq<char>>,
    pub check_interval_seconds: i64,
    pub created_at: Seq<char>,
    pub last_checked_at: Option<Seq<char>>,
    pub last_snapshot_id: Option<i64>,
}

/// The mathematical value of a [`NewSite`].
pub struct NewSiteView {
    pub url: Seq<char>,
    pub selector: Option<Seq<char>>,
    pub check_interval_seconds: i64,
}

impl View for Site {
    type V = SiteView;

    open spec fn view(&self) -> SiteView {
        SiteView {
            id: self.id,
            url: self.url@,
            selector: text_of(self.selector),
            check_interval_seconds: self.check_interval_seconds,
            created_at: self.created_at@,
            last_checked_at: text_of(self.last_checked_at),
            last_snapshot_id: self.last_snapshot_id,
        }
    }
}

impl View for NewSite {
    type V = NewSiteView;

    open spec fn view(&self) -> NewSiteView {
        NewSiteView {
            url: self.url@,
            selector: text_of(self.selector),
            check_interval_seconds: self.check_interval_seconds,
        }
    }
}

impl NewSiteView {
    /// A registration is acceptable when it asks for a poll interval of at
    /// least one second.
    pub open spec fn valid(self) -> bool {
        self.check_interval_seconds >= 1
    }
}

impl SiteView {
    /// Identifiers start at one, and a site is polled at most once a second.
    pub open spec fn valid(self) -> bool {
        self.id >= 1 && self.check_interval_seconds >= 1
    }

    /// The row of a site that was just registered under `id` at the time
    /// `now`: never checked, no snapshot.
    pub open spec fn registered(id: i64, new: NewSiteView, now: Seq<char>) -> SiteView {
        SiteView {
            id,
            url: new.url,
            selector: new.selector,
            check_interval_seconds: new.check_interval_seconds,
            created_at: now,
            last_checked_at: None,
            last_snapshot_id: None,
        }
    }

    /// The row after a poll at `now` that wrote nothing.
    pub open spec fn checked(self, now: Seq<char>) -> SiteView {
        SiteView { last_checked_at: Some(now), ..self }
    }

    /// The row after a poll at `now` that captured the snapshot `snapshot_id`.
    pub open spec fn captured(self, snapshot_id: i64, now: Seq<char>) -> SiteView {
        SiteView { last_checked_at: Some(now), last_snapshot_id: Some(snapshot_id), ..self }
    }
}

impl NewSite {
    /// Tells whether the registration asks for an interval of at least one
    /// second.
    pub fn is_valid(&self) -> (ok: bool)
        ensures
            ok == self@.valid(),
    {
        self.check_interval_seconds >= 1
    }
}

impl Site {
    /// Builds the row of a site registered under `id` at the time `now`.
    pub fn register(id: i64, new: NewSite, now: &str) -> (site: Site)
        ensures
            site@ == SiteView::registered(id, new@, now@),
    {
        Site {
            id,
            url: new.url,
            selector: new.selector,
            check_interval_seconds: new.check_interval_seconds,
            created_at: now.to_owned(),
            last_checked_at: None,
            last_snapshot_id: None,
        }
    }
}

impl Clone for Site {
    fn clone(&self) -> (copy: Site)
        ensures
            copy == *self,
    {
        Site {
            id: self.id,
            url: self.url.clone(),
            selector: clone_text(&self.selector),
            check_interval_seconds: self.check_interval_seconds,
            created_at: self.created_at.clone(),
            last_checked_at: clone_text(&self.last_checked_at),
            last_snapshot_id: self.last_snapshot_id,
        }
    }
}

} // verus!
