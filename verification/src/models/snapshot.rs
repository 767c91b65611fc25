//! Captures of a site's content.

use vstd::prelude::*;

verus! {

/// The content of a site at one poll. Never changed once written.
#[derive(Debug)]
pub struct Snapshot {
    pub id: i64,
    pub site_id: i64,
    pub created_at: String,
    pub content_hash: String,
    pub content: String,
}

/// The mathematical value of a [`Snapshot`].
pub struct SnapshotView {
    pub id: i64,
    pub site_id: i64,
    pub created_at: Seq<char>,
    pub content_hash: Seq<char>,
    pub content: Seq<char>,
}

impl View for Snapshot {
    type V = SnapshotView;

    open spec fn view(&self) -> SnapshotView {
        SnapshotView {
            id: self.id,
            site_id: self.site_id,
            created_at: self.created_at@,
            content_hash: self.content_hash@,
            content: self.content@,
        }
    }
}

impl Clone for Snapshot {
    fn clone(&self) -> (copy: Snapshot)
        ensures
            copy == *self,
    {
        Snapshot {
            id: self.id,
            site_id: self.site_id,
            created_at: self.created_at.clone(),
            content_hash: self.content_hash.clone(),
            content: self.content.clone(),
        }
    }
}

} // verus!
