//! Timestamp parsing for the date strings the platforms hand out.
//!
//! Entries carry their instants as non-leap seconds since the Unix
//! epoch, so that the pending queue can order them as plain integers.

use vstd::prelude::*;

verus! {

/// The instant that an RFC 3339 date-and-time string denotes, as
/// seconds since the Unix epoch, or nothing when the string does not
/// parse. A function of the string alone.
pub uninterp spec fn rfc3339_timestamp(s: Seq<char>) -> Option<i64>;

/// The instant that a `YYYY-MM-DDThh:mm:ss` string denotes when read as
/// UTC, as seconds since the Unix epoch, or nothing when the string
/// does not parse. A function of the string alone.
pub uninterp spec fn naive_utc_timestamp(s: Seq<char>) -> Option<i64>;

/// Parses an RFC 3339 date-and-time string.
///
/// Relies on chrono's `DateTime::parse_from_rfc3339`, whose result
/// depends on the string alone, and on `DateTime::timestamp`, the
/// parsed instant as non-leap seconds since the Unix epoch.
#[verifier::external_body]
pub fn parse_datetime(s: &str) -> (r: Option<i64>)
    ensures
        r == rfc3339_timestamp(s@),
{
    match chrono::DateTime::parse_from_rfc3339(s) {
        Ok(d) => Some(d.timestamp()),
        Err(_) => None,
    }
}

/// Parses a bare `YYYY-MM-DDThh:mm:ss` string, assuming UTC.
///
/// Relies on chrono's `NaiveDateTime::parse_from_str`, whose result
/// depends on its string arguments alone, and on
/// `NaiveDateTime::and_utc` and `DateTime::timestamp`, the denoted
/// instant as non-leap seconds since the Unix epoch.
#[verifier::external_body]
pub fn parse_assuming_utc(s: &str) -> (r: Option<i64>)
    ensures
        r == naive_utc_timestamp(s@),
{
    match chrono::NaiveDateTime::parse_from_str(s, "%Y-%m-%dT%H:%M:%S") {
        Ok(d) => Some(d.and_utc().timestamp()),
        Err(_) => None,
    }
}

} // verus!
