//! UTC calendar fields and date text of a millisecond timestamp.
//!
//! The proleptic Gregorian calendar is computed by `chrono`. Its results are
//! functions of the timestamp alone and are known here by name only.

use chrono::{Datelike, TimeZone, Utc};
use vstd::prelude::*;

verus! {

/// The first instant with a calendar date: 1 January of the year -262143,
/// 00:00:00.000 UTC.
pub const MIN_TIMESTAMP_MS: i64 = -8_334_601_228_800_000;

/// The last instant with a calendar date: 31 December of the year 262142,
/// 23:59:59.999 UTC.
pub const MAX_TIMESTAMP_MS: i64 = 8_210_266_876_799_999;

/// The pattern of a link's date: day, month and year, then hour, minute and
/// second, each zero-padded.
pub const DATE_PATTERN: &'static str = "%d-%m-%Y %H:%M:%S";

/// The timestamp lies within the years that the calendar can represent.
pub open spec fn has_utc_date(timestamp_ms: i64) -> bool {
    MIN_TIMESTAMP_MS <= timestamp_ms <= MAX_TIMESTAMP_MS
}

/// The year of the UTC calendar date of `timestamp_ms`.
pub uninterp spec fn utc_year_of(timestamp_ms: i64) -> i32;

/// The month, counted from 1, of the UTC calendar date of `timestamp_ms`.
pub uninterp spec fn utc_month_of(timestamp_ms: i64) -> u32;

/// The day of the month, counted from 1, of the UTC calendar date of
/// `timestamp_ms`.
pub uninterp spec fn utc_day_of(timestamp_ms: i64) -> u32;

/// The UTC date and time of `timestamp_ms`, written by `pattern`.
pub uninterp spec fn utc_date_text(timestamp_ms: i64, pattern: Seq<char>) -> Seq<char>;

/// Year of a timestamp: `TimeZone::timestamp_millis_opt` on `Utc`, then
/// `Datelike::year`.
///
/// `chrono` builds the date-time for every timestamp between
/// [`MIN_TIMESTAMP_MS`] and [`MAX_TIMESTAMP_MS`] and for no other; its year
/// depends on the timestamp alone.
#[verifier::external_body]
pub(crate) fn utc_year(timestamp_ms: i64) -> (year: i32)
    requires
        has_utc_date(timestamp_ms),
    ensures
        year == utc_year_of(timestamp_ms),
{
    Utc.timestamp_millis_opt(timestamp_ms).unwrap().year()
}

/// Month of a timestamp: `TimeZone::timestamp_millis_opt` on `Utc`, then
/// `Datelike::month`.
///
/// Defined on the same timestamps as [`utc_year`]; the month depends on the
/// timestamp alone.
#[verifier::external_body]
pub(crate) fn utc_month(timestamp_ms: i64) -> (month: u32)
    requires
        has_utc_date(timestamp_ms),
    ensures
        month == utc_month_of(timestamp_ms),
{
    Utc.timestamp_millis_opt(timestamp_ms).unwrap().month()
}

/// Day of the month of a timestamp: `TimeZone::timestamp_millis_opt` on
/// `Utc`, then `Datelike::day`.
///
/// Defined on the same timestamps as [`utc_year`]; the day depends on the
/// timestamp alone.
#[verifier::external_body]
pub(crate) fn utc_day(timestamp_ms: i64) -> (day: u32)
    requires
        has_utc_date(timestamp_ms),
    ensures
        day == utc_day_of(timestamp_ms),
{
    Utc.timestamp_millis_opt(timestamp_ms).unwrap().day()
}

/// Date text of a timestamp: `TimeZone::timestamp_millis_opt` on `Utc`, then
/// `DateTime::format` and `to_string`.
///
/// The text depends on the timestamp and the pattern alone: `Utc` has no
/// offset and the formatting uses no locale. With [`DATE_PATTERN`], which
/// holds only specifiers that `chrono` knows, the formatting cannot fail.
#[verifier::external_body]
pub(crate) fn format_utc(timestamp_ms: i64, pattern: &str) -> (text: String)
    requires
        has_utc_date(timestamp_ms),
        pattern@ == DATE_PATTERN@,
    ensures
        text@ == utc_date_text(timestamp_ms, pattern@),
{
    Utc.timestamp_millis_opt(timestamp_ms).unwrap().format(pattern).to_string()
}

/// Whether the calendar can represent the timestamp.
pub fn timestamp_has_utc_date(timestamp_ms: i64) -> (representable: bool)
    ensures
        representable == has_utc_date(timestamp_ms),
{
    MIN_TIMESTAMP_MS <= timestamp_ms && timestamp_ms <= MAX_TIMESTAMP_MS
}

} // verus!
