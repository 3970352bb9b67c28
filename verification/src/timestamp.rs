//! Release timestamps and the recrawl-forcing date floor.
//!
//! Timestamps are held as seconds since the Unix epoch (UTC). Every
//! timestamp reported in a sitemap document is first raised to a fixed floor
//! instant: the moment a canonical-link element was added to every page,
//! after which crawlers should revisit each page at least once.

use vstd::prelude::*;

verus! {

/// The floor instant, 2022-08-28T00:00:00Z, as seconds since the Unix epoch.
pub const RECRAWL_FLOOR_SECS: i64 = 1661644800;

/// Latest second the formatter accepts: 9999-12-31T23:59:59Z.
pub const MAX_FORMAT_SECS: i64 = 253402300799;

/// The normalized form of a timestamp: never earlier than the floor.
pub open spec fn spec_normalize(t: int) -> int {
    if t < RECRAWL_FLOOR_SECS as int {
        RECRAWL_FLOOR_SECS as int
    } else {
        t
    }
}

/// Raise a timestamp to the recrawl floor: returns `max(t, floor)`.
pub fn normalize(t: i64) -> (r: i64)
    ensures
        r as int == spec_normalize(t as int),
        r >= RECRAWL_FLOOR_SECS,
        r >= t,
        r == t || r == RECRAWL_FLOOR_SECS,
{
    if t < RECRAWL_FLOOR_SECS {
        RECRAWL_FLOOR_SECS
    } else {
        t
    }
}

/// The ISO 8601 / RFC 3339 rendering, with UTC offset, of a timestamp given
/// as seconds since the Unix epoch; determined by the seconds value alone.
pub uninterp spec fn iso8601_utc(secs: int) -> Seq<char>;

/// Relies on chrono: `DateTime::<Utc>::from_timestamp` followed by the `%+`
/// (ISO 8601 / RFC 3339) format item renders a UTC timestamp, and the result
/// depends on the seconds value alone.
#[verifier::external_body]
pub(crate) fn format_timestamp(secs: i64) -> (r: String)
    requires
        0 <= secs <= MAX_FORMAT_SECS,
    ensures
        r@ == iso8601_utc(secs as int),
{
    chrono::DateTime::<chrono::Utc>::from_timestamp(secs, 0)
        .expect("seconds within the supported range")
        .format("%+")
        .to_string()
}

} // verus!
