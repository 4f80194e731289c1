//! Timestamps. The library holds a point in time as milliseconds since the
//! Unix epoch; reading one out of an RFC 3339 text is left to chrono.

use vstd::prelude::*;

verus! {

/// What chrono's RFC 3339 parser makes of a text: `None` where the text is
/// not a valid RFC 3339 date-and-time, else the instant it names, as
/// milliseconds since the Unix epoch. The result depends on the characters
/// alone; its full definition is the RFC 3339 grammar and calendar
/// arithmetic, which this library does not restate.
pub uninterp spec fn parsed_rfc3339(s: Seq<char>) -> Option<i64>;

/// Reads an RFC 3339 date-and-time text into epoch milliseconds.
///
/// Relies on chrono's `DateTime::parse_from_rfc3339`, which accepts exactly
/// the valid RFC 3339 date-and-time values, and on `timestamp_millis`, which
/// converts the parsed instant to milliseconds since the Unix epoch.
#[verifier::external_body]
pub fn parse_rfc3339_millis(s: &str) -> (r: Option<i64>)
    ensures
        r == parsed_rfc3339(s@),
{
    match chrono::DateTime::parse_from_rfc3339(s) {
        Ok(dt) => Some(dt.timestamp_millis()),
        Err(_) => None,
    }
}

} // verus!
