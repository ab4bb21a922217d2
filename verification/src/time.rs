//! Instants in time, held as milliseconds since the Unix epoch (UTC).
use vstd::prelude::*;

verus! {

/// An instant: milliseconds since 1970-01-01T00:00:00Z.
pub type Timestamp = i64;

/// Latest instant `chrono::DateTime<Utc>` can hold, in milliseconds.
pub const MAX_TIMESTAMP: i64 = 8210266876799999;

/// Earliest instant `chrono::DateTime<Utc>` can hold, in milliseconds.
pub const MIN_TIMESTAMP: i64 = -8334601315200000;

/// Milliseconds in a day.
pub const DAY_MILLIS: i64 = 86400000;

/// An instant that a `chrono::DateTime<Utc>` can represent.
pub open spec fn valid_timestamp(t: int) -> bool {
    MIN_TIMESTAMP <= t <= MAX_TIMESTAMP
}

/// The current wall-clock time: `chrono::Utc::now().timestamp_millis()`.
///
/// `Utc::now` reads the system clock as a duration since the Unix epoch
/// (it panics before the epoch) and builds a `DateTime` from it, so the
/// value is non-negative and within `DateTime`'s range. Which instant
/// comes back is not stated: it depends on the clock.
#[verifier::external_body]
pub(crate) fn now_millis() -> (t: Timestamp)
    ensures
        0 <= t <= MAX_TIMESTAMP,
{
    chrono::Utc::now().timestamp_millis()
}

/// What `chrono::DateTime::parse_from_rfc3339` makes of a text: the
/// instant it names, in milliseconds since the epoch (UTC, digits below a
/// millisecond dropped), or the text of the `ParseError` it refuses the
/// text with.
pub uninterp spec fn rfc3339_instant(s: Seq<char>) -> Result<int, Seq<char>>;

/// Reads an RFC 3339 date-time with
/// `chrono::DateTime::parse_from_rfc3339`, taken to UTC and to
/// milliseconds with `timestamp_millis`; a refusal gives the
/// `ParseError`'s `Display` text.
///
/// Claimed of it: the outcome is `rfc3339_instant` of the text, and an
/// accepted text names an instant a `DateTime<Utc>` can hold. Which texts
/// chrono accepts, and its messages, are left to the name.
#[verifier::external_body]
pub(crate) fn parse_rfc3339(s: &str) -> (r: Result<Timestamp, String>)
    ensures
        match r {
            Ok(t) => rfc3339_instant(s@) == Ok::<int, Seq<char>>(t as int) && valid_timestamp(t as int),
            Err(m) => rfc3339_instant(s@) == Err::<int, Seq<char>>(m@),
        },
{
    match chrono::DateTime::parse_from_rfc3339(s) {
        Ok(d) => Ok(d.with_timezone(&chrono::Utc).timestamp_millis()),
        Err(e) => Err(e.to_string()),
    }
}

} // verus!
