//! Instants are whole seconds since 1970-01-01T00:00:00 UTC, held in an `i64`.
//! This module states the range that chrono can represent, the proleptic
//! Gregorian calendar arithmetic that maps a date to its midnight, and the
//! chrono calls that turn dates and instants into values and text.

use vstd::prelude::*;

verus! {

/// First second that chrono's `DateTime<Utc>` can hold (-262143-01-01T00:00:00Z).
pub const MIN_TIMESTAMP: i64 = -8334601228800;

/// Last whole second that chrono's `DateTime<Utc>` can hold (262142-12-31T23:59:59Z).
pub const MAX_TIMESTAMP: i64 = 8210266876799;

/// First year that chrono's `NaiveDate` can hold.
pub const MIN_YEAR: i32 = -262143;

/// Last year that chrono's `NaiveDate` can hold.
pub const MAX_YEAR: i32 = 262142;

/// Seconds in one day.
pub const SECONDS_PER_DAY: i64 = 86400;

/// Whether chrono can represent the instant `ts`.
pub open spec fn in_chrono_range(ts: int) -> bool {
    MIN_TIMESTAMP <= ts <= MAX_TIMESTAMP
}

/// Leap years of the proleptic Gregorian calendar.
pub open spec fn is_leap_year(year: int) -> bool {
    (year % 4 == 0 && year % 100 != 0) || year % 400 == 0
}

/// Number of days of `month` (1 to 12) in `year`.
pub open spec fn days_in_month(year: int, month: int) -> int {
    if month == 2 {
        if is_leap_year(year) { 29 } else { 28 }
    } else if month == 4 || month == 6 || month == 9 || month == 11 {
        30
    } else {
        31
    }
}

/// Whether `year-month-day` is a date that chrono's `NaiveDate` can hold.
pub open spec fn is_valid_date(year: int, month: int, day: int) -> bool {
    &&& MIN_YEAR <= year <= MAX_YEAR
    &&& 1 <= month <= 12
    &&& 1 <= day <= days_in_month(year, month)
}

/// Number of days from 1970-01-01 to `year-month-day` in the proleptic
/// Gregorian calendar (negative before 1970). Years are counted from March so
/// that the leap day comes last; an era is a cycle of 400 years.
pub open spec fn days_from_civil(year: int, month: int, day: int) -> int {
    let y = if month <= 2 { year - 1 } else { year };
    let era = y / 400;
    let year_of_era = y - era * 400;
    let month_from_march = (month + 9) % 12;
    let day_of_year = (153 * month_from_march + 2) / 5 + day - 1;
    let day_of_era = year_of_era * 365 + year_of_era / 4 - year_of_era / 100 + day_of_year;
    era * 146097 + day_of_era - 719468
}

/// The instant at which `year-month-day` begins in UTC.
pub open spec fn midnight_timestamp(year: int, month: int, day: int) -> int {
    days_from_civil(year, month, day) * SECONDS_PER_DAY
}

/// Calls chrono: `NaiveDate::from_ymd_opt(..)`, `and_time(NaiveTime::MIN)`,
/// `and_utc()` and `timestamp()`. Claimed: the result is the number of seconds
/// from 1970-01-01T00:00:00Z to the start of that day in UTC, which chrono can
/// represent.
#[verifier::external_body]
pub(crate) fn midnight_utc_timestamp(year: i32, month: u32, day: u32) -> (ts: i64)
    requires
        is_valid_date(year as int, month as int, day as int),
    ensures
        ts == midnight_timestamp(year as int, month as int, day as int),
        in_chrono_range(ts as int),
{
    chrono::NaiveDate::from_ymd_opt(year, month, day).unwrap().and_time(chrono::NaiveTime::MIN).and_utc().timestamp()
}

/// The text of the instant `ts` as a wall-clock time in the Pacific time
/// zone (America/Los_Angeles) with the zone's abbreviation, such as
/// `2025-07-29 19:00:00 PDT`.
pub uninterp spec fn pacific_label(ts: i64) -> Seq<char>;

/// Calls chrono: `DateTime::from_timestamp(ts, 0)`, `with_timezone` to
/// chrono-tz's `America::Los_Angeles`, and `Display`
/// (`"%Y-%m-%d %H:%M:%S"`, a space, the zone's abbreviation). Claimed: the
/// result is `pacific_label(ts)`, and it is ASCII without a carriage return
/// (digits, `-`, `:`, spaces and the zone's abbreviation).
#[verifier::external_body]
pub(crate) fn pacific_time_label(ts: i64) -> (label: String)
    requires
        in_chrono_range(ts as int),
    ensures
        label@ == pacific_label(ts),
        forall|i: int| 0 <= i < label@.len() ==> label@[i] != '\r' && (label@[i] as int) < 128,
{
    chrono::DateTime::from_timestamp(ts, 0).unwrap().with_timezone(&chrono_tz::America::Los_Angeles).to_string()
}

} // verus!
