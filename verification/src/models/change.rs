//! Records of detected differences.

use vstd::prelude::*;

verus! {

/// The record that a site's content went from one snapshot to another, or
/// that its first snapshot was taken. Never changed once written.
#[derive(Debug)]
pub struct Change {
    pub id: i64,
    pub site_id: i64,
    pub old_snapshot_id: Option<i64>,
    pub new_snapshot_id: i64,
    pub created_at: String,
    pub summary: String,
}

/// The mathematical value of a [`Change`].
pub struct ChangeView {
    pub id: i64,
    pub site_id: i64,
    pub old_snapshot_id: Option<i64>,
    pub new_snapshot_id: i64,
    pub created_at: Seq<char>,
    pub summary: Seq<char>,
}

impl View for Change {
    type V = ChangeView;

    open spec fn view(&self) -> ChangeView {
        ChangeView {
            id: self.id,
            site_id: self.site_id,
            old_snapshot_id: self.old_snapshot_id,
            new_snapshot_id: self.new_snapshot_id,
            created_at: self.created_at@,
            summary: self.summary@,
        }
    }
}

impl Clone for Change {
    fn clone(&self) -> (copy: Change)
        ensures
            copy == *self,
    {
        Change {
            id: self.id,
            site_id: self.site_id,
            old_snapshot_id: self.old_snapshot_id,
            new_snapshot_id: self.new_snapshot_id,
            created_at: self.created_at.clone(),
            summary: self.summary.clone(),
        }
    }
}

} // verus!
