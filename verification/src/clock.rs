//! The system clock and the machine's local time zone, read through chrono.

use vstd::prelude::*;
use chrono::Datelike;

verus! {

/// The current time as Unix seconds, with the current local date as year,
/// month and day. Reads std's `SystemTime::now()`, converts it with chrono's
/// `DateTime::<Utc>::from` (a clock before the Unix epoch gives a negative
/// count), and takes the local date with `DateTime::with_timezone(&Local)`,
/// `DateTime::date_naive` and `Datelike::{year, month, day}`; chrono
/// documents month as 1 to 12 and day as 1 to 31. Nothing else is stated of
/// the values: they come from the clock and the machine's time zone. chrono
/// still unwraps two results on this path: the UTC instant (it fails only
/// for clock readings beyond about 262,000 years from year 0) and the local
/// offset (`offset/local/mod.rs`, `offset_from_utc_datetime`, which fails
/// when the operating system's time-zone query fails or on overflow at the
/// ends of the `i64` range). Neither depends on an argument, so no
/// `requires` can exclude it.
#[verifier::external_body]
pub(crate) fn local_now() -> (r: (i64, i32, u32, u32))
    ensures
        1 <= r.2 <= 12,
        1 <= r.3 <= 31,
{
    let now = chrono::DateTime::<chrono::Utc>::from(std::time::SystemTime::now());
    let date = now.with_timezone(&chrono::Local).date_naive();
    (now.timestamp(), date.year(), date.month(), date.day())
}

/// The single instant, in Unix seconds, that the local wall time
/// `year-month-day hour:minute:second` names in the machine's time zone
/// (chrono's `NaiveDate::from_ymd_opt`, `NaiveDate::and_hms_opt`,
/// `NaiveDateTime::and_local_timezone(Local)`, `DateTime::timestamp`). `None`
/// when the date or the time does not exist (chrono documents month 1 to 12,
/// day 1 to 31 at most, hour below 24, minute and second below 60), or when
/// the wall time falls in a fold (two instants) or a gap (none) of the local
/// zone, or when the zone cannot give an offset. Which instant it is depends
/// on the machine's time zone, so nothing more is stated of it.
#[verifier::external_body]
pub(crate) fn local_instant(year: i32, month: u32, day: u32, hour: u32, minute: u32, second: u32) -> (r: Option<i64>)
    ensures
        month < 1 || month > 12 || day < 1 || day > 31 || hour > 23 || minute > 59 || second > 59 ==> r is None,
{
    let date = match chrono::NaiveDate::from_ymd_opt(year, month, day) {
        Some(d) => d,
        None => return None,
    };
    let wall = match date.and_hms_opt(hour, minute, second) {
        Some(w) => w,
        None => return None,
    };
    match wall.and_local_timezone(chrono::Local) {
        chrono::LocalResult::Single(t) => Some(t.timestamp()),
        chrono::LocalResult::Ambiguous(_, _) => None,
        chrono::LocalResult::None => None,
    }
}

/// Milliseconds since the Unix epoch by the system clock: std's
/// `SystemTime::now()` through chrono's `DateTime::<Utc>::from` and
/// `DateTime::timestamp_millis` (a clock before the epoch gives a negative
/// count). Nothing is stated of the value: it comes from the clock. chrono
/// unwraps the UTC instant, which fails only for clock readings beyond about
/// 262,000 years from year 0.
#[verifier::external_body]
pub(crate) fn utc_now_millis() -> (r: i64) {
    chrono::DateTime::<chrono::Utc>::from(std::time::SystemTime::now()).timestamp_millis()
}

} // verus!
