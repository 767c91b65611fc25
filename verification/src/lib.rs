//! Change tracking for remote web pages: the row model of sites, snapshots
//! and changes, content fingerprints, the decision whether a fetched page
//! differs from the last capture, and the per-site polling schedule.

pub mod clock;
pub mod cycle;
pub mod diff;
pub mod fetch;
pub mod fingerprint;
pub mod integrity;
pub mod models;
pub mod poll;
pub mod scheduler;
pub mod store;
pub mod text;
