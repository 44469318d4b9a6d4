//! Proleptic Gregorian calendar over UTC epoch days, backed by chrono.

use chrono::{Datelike, Timelike};
use vstd::prelude::*;

verus! {

/// Earliest year that chrono's `NaiveDate` represents.
pub const MIN_YEAR: i32 = -262143;

/// Latest year that chrono's `NaiveDate` represents.
pub const MAX_YEAR: i32 = 262142;

/// Seconds in one UTC day.
pub const SECONDS_PER_DAY: i64 = 86400;

pub open spec fn is_leap_year(y: int) -> bool {
    (y % 4 == 0 && y % 100 != 0) || y % 400 == 0
}

/// Number of days in month `m` (1 to 12) of year `y`.
pub open spec fn month_length(y: int, m: int) -> int {
    if m == 2 {
        if is_leap_year(y) { 29 } else { 28 }
    } else if m == 4 || m == 6 || m == 9 || m == 11 {
        30
    } else {
        31
    }
}

/// Days of year `y` that come before the first of month `m`.
pub open spec fn days_before_month(y: int, m: int) -> int {
    let base: int = if m <= 1 { 0 } else if m == 2 { 31 } else if m == 3 { 59 } else if m == 4 {
        90
    } else if m == 5 { 120 } else if m == 6 { 151 } else if m == 7 { 181 } else if m == 8 {
        212
    } else if m == 9 { 243 } else if m == 10 { 273 } else if m == 11 { 304 } else { 334 };
    if m > 2 && is_leap_year(y) { base + 1 } else { base }
}

/// Days from 0001-01-01 to the first of January of year `y` (negative before it).
pub open spec fn days_before_year(y: int) -> int {
    365 * (y - 1) + (y - 1) / 4 - (y - 1) / 100 + (y - 1) / 400
}

/// Day number of a calendar date, counted from 1970-01-01 (day 0).
pub open spec fn epoch_day(y: int, m: int, d: int) -> int {
    days_before_year(y) + days_before_month(y, m) + d - 1 - 719162
}

/// The date exists in the Gregorian calendar and lies in chrono's range.
pub open spec fn valid_ymd(y: int, m: int, d: int) -> bool {
    &&& MIN_YEAR <= y <= MAX_YEAR
    &&& 1 <= m <= 12
    &&& 1 <= d <= month_length(y, m)
}

/// Year and month that follow month `m` of year `y`.
pub open spec fn next_month(y: int, m: int) -> (int, int) {
    if m == 12 { (y + 1, 1) } else { (y, m + 1) }
}

/// A calendar date in UTC.
#[derive(Clone, Copy, Debug, PartialEq, Eq, Structural)]
pub struct CivilDate {
    pub year: i32,
    pub month: u32,
    pub day: u32,
}

impl CivilDate {
    pub open spec fn valid(self) -> bool {
        valid_ymd(self.year as int, self.month as int, self.day as int)
    }

    pub open spec fn day_number(self) -> int {
        epoch_day(self.year as int, self.month as int, self.day as int)
    }

    /// The date `year-month-day`, if it exists in the calendar and in range.
    pub fn from_ymd_opt(year: i32, month: u32, day: u32) -> (r: Option<CivilDate>)
        ensures
            r is Some <==> valid_ymd(year as int, month as int, day as int),
            r matches Some(d) ==> d.year == year && d.month == month && d.day == day,
    {
        match midnight_timestamp(year, month, day) {
            Some(_) => Some(CivilDate { year, month, day }),
            None => None,
        }
    }
}

/// Relies on chrono's `NaiveDate::from_ymd_opt`, which accepts exactly the
/// existing dates of years `MIN_YEAR..=MAX_YEAR`, and on
/// `DateTime::<Utc>::timestamp`, which counts seconds from 1970-01-01 00:00 UTC.
#[verifier::external_body]
fn midnight_timestamp(year: i32, month: u32, day: u32) -> (r: Option<i64>)
    ensures
        r is Some <==> valid_ymd(year as int, month as int, day as int),
        r matches Some(t) ==> t == epoch_day(year as int, month as int, day as int) * 86400,
{
    chrono::NaiveDate::from_ymd_opt(year, month, day).map(
        |d| d.and_time(chrono::NaiveTime::MIN).and_utc().timestamp(),
    )
}

proof fn lemma_div_step(y: int, n: int)
    requires
        n > 0,
    ensures
        y / n - (y - 1) / n == if y % n == 0 { 1int } else { 0int },
{
    let q = (y - 1) / n;
    let r = (y - 1) % n;
    vstd::arithmetic::div_mod::lemma_fundamental_div_mod(y - 1, n);
    vstd::arithmetic::div_mod::lemma_mod_bound(y - 1, n);
    assert(y - 1 == q * n + r) by (nonlinear_arith)
        requires
            y - 1 == n * q + r,
    ;
    if r + 1 < n {
        vstd::arithmetic::div_mod::lemma_fundamental_div_mod_converse(y, n, q, r + 1);
    } else {
        assert(y == (q + 1) * n + 0) by (nonlinear_arith)
            requires
                y - 1 == q * n + r,
                r + 1 == n,
        ;
        vstd::arithmetic::div_mod::lemma_fundamental_div_mod_converse(y, n, q + 1, 0);
    }
}

proof fn lemma_year_step(y: int)
    ensures
        days_before_year(y + 1) - days_before_year(y) == if is_leap_year(y) { 366int } else { 365int },
{
    lemma_div_step(y, 4);
    lemma_div_step(y, 100);
    lemma_div_step(y, 400);
    assert(y % 400 == 0 ==> y % 100 == 0) by {
        if y % 400 == 0 {
            vstd::arithmetic::div_mod::lemma_fundamental_div_mod(y, 400);
            vstd::arithmetic::div_mod::lemma_fundamental_div_mod_converse(y, 100, 4 * (y / 400), 0);
        }
    }
    assert(y % 100 == 0 ==> y % 4 == 0) by {
        if y % 100 == 0 {
            vstd::arithmetic::div_mod::lemma_fundamental_div_mod(y, 100);
            vstd::arithmetic::div_mod::lemma_fundamental_div_mod_converse(y, 4, 25 * (y / 100), 0);
        }
    }
}

/// The first of the next month lies `month_length(y, m)` days after the
/// first of month `m`.
pub proof fn lemma_month_span(y: int, m: int)
    requires
        1 <= m <= 12,
    ensures
        epoch_day(next_month(y, m).0, next_month(y, m).1, 1) - epoch_day(y, m, 1) == month_length(y, m),
{
    if m == 12 {
        lemma_year_step(y);
    }
}

/// Number of days in month `month` of year `year`, found as the distance from
/// the first of the month to the first of the next one.
pub fn days_in_month(year: i32, month: u32) -> (r: u32)
    requires
        1 <= month <= 12,
        MIN_YEAR <= year <= MAX_YEAR,
        year < MAX_YEAR || month < 12,
    ensures
        r == month_length(year as int, month as int),
{
    let (next_year, next_mon): (i32, u32) = if month == 12 {
        (year + 1, 1)
    } else {
        (year, month + 1)
    };
    let start = midnight_timestamp(year, month, 1).unwrap();
    let next = midnight_timestamp(next_year, next_mon, 1).unwrap();
    proof {
        lemma_month_span(year as int, month as int);
    }
    let span: i64 = next - start;
    (span / SECONDS_PER_DAY) as u32
}

/// Seconds from 1970-01-01 00:00 UTC to midnight UTC at the start of `date`.
pub fn unix_timestamp(date: CivilDate) -> (r: i64)
    requires
        date.valid(),
    ensures
        r == date.day_number() * 86400,
{
    midnight_timestamp(date.year, date.month, date.day).unwrap()
}

/// Bound on the magnitude of epoch seconds that chrono is relied on to turn
/// into a date; it lies about 250,000 years from 1970, within chrono's range.
pub const CONVERTIBLE_SECONDS: i64 = 8100000000000;

/// Bound on the magnitude of provider timestamps that are always read.
pub const SUPPORTED_SECONDS: i64 = 8000000000000;

/// Hour of the UTC day at epoch second `t`.
pub open spec fn utc_hour(t: int) -> int {
    (t % 86400) / 3600
}

/// The provider's timestamp correction: a timestamp in the 23rd UTC hour is
/// moved forward one hour; any other is kept.
pub open spec fn corrected_timestamp(t: int) -> int {
    if utc_hour(t) == 23 { t + 3600 } else { t }
}

/// Epoch day of the trading day that timestamp `t` stands for.
pub open spec fn trading_day(t: int) -> int {
    corrected_timestamp(t) / 86400
}

/// Relies on chrono's `DateTime::<Utc>::from_timestamp`, which splits epoch
/// seconds into the UTC date of day `t / 86400` and the time of day
/// `t % 86400` (Euclidean), and fails only outside `NaiveDate`'s range; and on
/// `Datelike` and `Timelike` to read the date's fields and the hour.
#[verifier::external_body]
fn utc_date_and_hour(t: i64) -> (r: Option<(CivilDate, u32)>)
    ensures
        -CONVERTIBLE_SECONDS <= t <= CONVERTIBLE_SECONDS ==> r is Some,
        r matches Some((d, h)) ==> {
            &&& d.valid()
            &&& d.day_number() == t / 86400
            &&& h == utc_hour(t as int)
        },
{
    chrono::DateTime::from_timestamp(t, 0).map(
        |dt| (CivilDate { year: dt.year(), month: dt.month(), day: dt.day() }, dt.hour()),
    )
}

/// The trading day that a provider timestamp stands for: its UTC date, after
/// a timestamp in the 23rd UTC hour is moved forward one hour.
pub fn trading_date(timestamp: i64) -> (r: Option<CivilDate>)
    ensures
        -SUPPORTED_SECONDS <= timestamp <= SUPPORTED_SECONDS ==> r is Some,
        r matches Some(d) ==> d.valid() && d.day_number() == trading_day(timestamp as int),
{
    let (date, hour) = match utc_date_and_hour(timestamp) {
        Some(parts) => parts,
        None => return None,
    };
    if hour == 23 {
        let shifted = match timestamp.checked_add(3600) {
            Some(t) => t,
            None => return None,
        };
        match utc_date_and_hour(shifted) {
            Some((next, _)) => Some(next),
            None => None,
        }
    } else {
        Some(date)
    }
}

/// A timestamp in the 23rd UTC hour belongs to the next UTC day; one in any
/// other hour to its own UTC day.
pub proof fn lemma_trading_day_of_hour(t: int)
    ensures
        utc_hour(t) == 23 ==> trading_day(t) == t / 86400 + 1,
        utc_hour(t) != 23 ==> trading_day(t) == t / 86400,
{
    vstd::arithmetic::div_mod::lemma_fundamental_div_mod(t, 86400);
    vstd::arithmetic::div_mod::lemma_mod_bound(t, 86400);
    if utc_hour(t) == 23 {
        let q = t / 86400;
        let r = t % 86400;
        assert(82800 <= r < 86400);
        vstd::arithmetic::div_mod::lemma_fundamental_div_mod_converse(t + 3600, 86400, q + 1, r - 82800);
    }
}

} // verus!
