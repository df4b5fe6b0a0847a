//! Calendar and offset validity, checked through the `chrono` backend.
//!
//! The parser range-checks what it read against the proleptic Gregorian
//! calendar and against the backend's representable offset range. Those
//! checks are made by `chrono`, behind the trusted wrappers below, and each
//! wrapper's contract states the exact condition that `chrono`'s source
//! gives for the call to succeed.

use vstd::prelude::*;

verus! {

/// True when `y` is a leap year of the proleptic Gregorian calendar.
pub open spec fn is_leap_year(y: int) -> bool {
    (y % 4 == 0 && y % 100 != 0) || y % 400 == 0
}

/// The number of days of month `m` of year `y`.
pub open spec fn days_in_month(y: int, m: int) -> int {
    if m == 2 {
        if is_leap_year(y) {
            29
        } else {
            28
        }
    } else if m == 4 || m == 6 || m == 9 || m == 11 {
        30
    } else {
        31
    }
}

/// True when year `y`, month `m`, day `d` name a proleptic Gregorian
/// calendar date.
pub open spec fn valid_date(y: int, m: int, d: int) -> bool {
    &&& 1 <= m <= 12
    &&& 1 <= d <= days_in_month(y, m)
}

/// Relies on `chrono::FixedOffset::east_opt`: it returns `Some` exactly when
/// the offset in seconds lies strictly between -86400 and 86400.
#[verifier::external_body]
pub(crate) fn offset_seconds_valid(secs: i32) -> (r: bool)
    ensures
        r == (-86400 < secs < 86400),
{
    chrono::FixedOffset::east_opt(secs).is_some()
}

/// Relies on `chrono::NaiveDate::from_ymd_opt`: for a year its calendar can
/// represent, it returns `Some` exactly when the year, month and day name an
/// existing proleptic Gregorian calendar date.
#[verifier::external_body]
pub(crate) fn calendar_date_valid(y: u16, m: u8, d: u8) -> (r: bool)
    requires
        y <= 9999,
    ensures
        r == valid_date(y as int, m as int, d as int),
{
    chrono::NaiveDate::from_ymd_opt(y as i32, m as u32, d as u32).is_some()
}

/// Relies on `chrono::NaiveTime::from_hms_micro_opt`: below the leap-second
/// range of the microsecond argument, it returns `Some` exactly when the
/// hour, minute and second are a valid time of day.
#[verifier::external_body]
pub(crate) fn clock_time_valid(h: u8, mi: u8, s: u8, micro: u32) -> (r: bool)
    requires
        micro < 1000000,
    ensures
        r == (h < 24 && mi < 60 && s < 60),
{
    chrono::NaiveTime::from_hms_micro_opt(h as u32, mi as u32, s as u32, micro).is_some()
}

} // verus!
