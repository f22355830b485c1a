//! Parsing of stored timestamps.
//!
//! Timestamps are exchanged with storage adapters in a timezone-aware,
//! lexically sortable textual format (RFC 3339).  A malformed stored
//! timestamp surfaces as a distinct error instead of being silently
//! coerced.

use vstd::prelude::*;

verus! {

/// What `chrono::DateTime::parse_from_rfc3339` makes of a string, taken
/// to UTC: the instant as milliseconds since the Unix epoch, or `None`
/// when the string is not a valid RFC 3339 datetime.  The outcome is a
/// function of the input string alone.
pub uninterp spec fn rfc3339_millis(s: Seq<char>) -> Option<i64>;

/// Relies on `chrono::DateTime::parse_from_rfc3339`,
/// `chrono::DateTime::with_timezone` (the same instant in UTC) and
/// `chrono::DateTime::timestamp_millis`.
#[verifier::external_body]
fn parse_rfc3339_millis(s: &str) -> (r: Option<i64>)
    ensures
        r == rfc3339_millis(s@),
{
    match chrono::DateTime::parse_from_rfc3339(s) {
        Ok(dt) => Some(dt.with_timezone(&chrono::Utc).timestamp_millis()),
        Err(_) => None,
    }
}

/// A stored timestamp that could not be parsed: the field it was read
/// from and the text that was found there.
#[derive(Debug)]
pub struct InvalidDatetime {
    /// The name of the field being parsed.
    pub field: String,
    /// The text that failed to parse.
    pub value: String,
}

/// Parse a stored RFC 3339 timestamp into milliseconds since the Unix
/// epoch; a malformed value is reported with the field it came from.
pub fn parse_datetime(value: &str, field: &str) -> (r: Result<i64, InvalidDatetime>)
    ensures
        r matches Ok(m) ==> rfc3339_millis(value@) == Some(m),
        r matches Err(e) ==> rfc3339_millis(value@) is None && e.field@ == field@ && e.value@
            == value@,
{
    match parse_rfc3339_millis(value) {
        Some(m) => Ok(m),
        None => Err(InvalidDatetime { field: field.to_owned(), value: value.to_owned() }),
    }
}

} // verus!
