//! Calendar readings of date and timestamp texts, made by chrono.
use vstd::prelude::*;
use chrono::Datelike;
use crate::json::opt_string_view;

verus! {

/// A timestamp as one time zone sees it: milliseconds since the Unix epoch and
/// the calendar date at that instant in the zone.
#[derive(Debug, Clone, Copy, PartialEq, Eq, Structural)]
pub struct ZonedInstant {
    pub millis: i64,
    pub year: i32,
    pub month: u32,
    pub day: u32,
}

/// The `YYYY-MM-DD` text of the date that `text` denotes in `format`, if it denotes one.
pub uninterp spec fn date_in_format(text: Seq<char>, format: Seq<char>) -> Option<Seq<char>>;

/// An RFC 3339 timestamp read in the zone `offset_seconds` east of UTC, if `text` is one.
pub uninterp spec fn rfc3339_reading(text: Seq<char>, offset_seconds: int) -> Option<ZonedInstant>;

/// The `YYYY-MM-DD` UTC date of a Unix timestamp in milliseconds, if chrono can represent it.
pub uninterp spec fn utc_date_text(millis: int) -> Option<Seq<char>>;

/// `chrono::NaiveDate::parse_from_str`, then the date's `to_string`. The
/// result is a function of the text and the format alone.
#[verifier::external_body]
pub fn parse_date(text: &str, format: &str) -> (r: Option<String>)
    ensures
        opt_string_view(r) == date_in_format(text@, format@),
{
    match chrono::NaiveDate::parse_from_str(text, format) {
        Ok(date) => Some(date.to_string()),
        Err(_) => None,
    }
}

/// `chrono::DateTime::parse_from_rfc3339`, read in the fixed zone
/// `offset_seconds` east of UTC: its epoch milliseconds and local date. The
/// result is a function of the text and the offset alone.
#[verifier::external_body]
pub fn read_rfc3339(text: &str, offset_seconds: i32) -> (r: Option<ZonedInstant>)
    requires
        -86_400 < offset_seconds < 86_400,
    ensures
        r == rfc3339_reading(text@, offset_seconds as int),
{
    match (chrono::DateTime::parse_from_rfc3339(text), chrono::FixedOffset::east_opt(offset_seconds)) {
        (Ok(instant), Some(zone)) => {
            let date = instant.with_timezone(&zone).date_naive();
            Some(ZonedInstant { millis: instant.timestamp_millis(), year: date.year(), month: date.month(), day: date.day() })
        },
        _ => None,
    }
}

/// `chrono::DateTime::<Utc>::from_timestamp_millis`, then the UTC date's `to_string`.
#[verifier::external_body]
pub fn utc_date_of_millis(millis: i64) -> (r: Option<String>)
    ensures
        opt_string_view(r) == utc_date_text(millis as int),
{
    match chrono::DateTime::<chrono::Utc>::from_timestamp_millis(millis) {
        Some(instant) => Some(instant.date_naive().to_string()),
        None => None,
    }
}


/// The RFC 3339 text chrono writes for a Unix timestamp in milliseconds, if
/// chrono can represent it.
pub uninterp spec fn utc_rfc3339_text(millis: int) -> Option<Seq<char>>;

/// `chrono::DateTime::<Utc>::from_timestamp_millis`, then `to_rfc3339`.
#[verifier::external_body]
pub fn utc_rfc3339(millis: i64) -> (r: Option<String>)
    ensures
        opt_string_view(r) == utc_rfc3339_text(millis as int),
{
    match chrono::DateTime::<chrono::Utc>::from_timestamp_millis(millis) {
        Some(instant) => Some(instant.to_rfc3339()),
        None => None,
    }
}

} // verus!
