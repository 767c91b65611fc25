//! The wall clock, and timestamps as text.
//!
//! Timestamps are stored as RFC 3339 text. The schedule needs them as
//! seconds since the Unix epoch; the conversion is chrono's.

use vstd::prelude::*;

verus! {

/// The seconds since the Unix epoch that chrono reads from `text` as an
/// RFC 3339 date and time, or `None` where chrono does not accept `text`.
pub uninterp spec fn rfc3339_seconds(text: Seq<char>) -> Option<i64>;

/// A reading of the clock.
#[derive(Debug)]
pub struct Instant {
    /// The time as RFC 3339 text, as it is stored in the tables.
    pub text: String,
    /// The same time in seconds since the Unix epoch, if the text reads back.
    pub seconds: Option<i64>,
}

/// Calls `chrono::Utc::now` and formats the result with
/// `DateTime::to_rfc3339`. Nothing is claimed of the text: it depends on
/// the clock. chrono panics if the system clock is set before 1970.
#[verifier::external_body]
fn now_rfc3339() -> String {
    chrono::Utc::now().to_rfc3339()
}

/// Calls `chrono::DateTime::parse_from_rfc3339` and, where it accepts the
/// text, `DateTime::timestamp`. The contract claims only that the result is
/// a function of the text, which it names `rfc3339_seconds`.
#[verifier::external_body]
pub(crate) fn parse_rfc3339(text: &str) -> (seconds: Option<i64>)
    ensures
        seconds == rfc3339_seconds(text@),
{
    match chrono::DateTime::parse_from_rfc3339(text) {
        Ok(at) => Some(at.timestamp()),
        Err(_) => None,
    }
}

/// Reads the clock.
pub fn now() -> (instant: Instant)
    ensures
        instant.seconds == rfc3339_seconds(instant.text@),
{
    let text = now_rfc3339();
    let seconds = parse_rfc3339(text.as_str());
    Instant { text, seconds }
}

} // verus!
