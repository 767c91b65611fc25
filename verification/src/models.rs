//! The rows of the three tables: sites, snapshots and changes.

pub mod change;
pub mod site;
pub mod snapshot;
