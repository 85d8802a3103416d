//! Proleptic Gregorian calendar arithmetic on day numbers counted from
//! 1970-01-01 (day 0), and the clock readings that the rest of the crate uses.
use vstd::prelude::*;
use vstd::arithmetic::div_mod::{
    lemma_fundamental_div_mod,
    lemma_fundamental_div_mod_converse,
    lemma_fundamental_div_mod_converse_div,
    lemma_fundamental_div_mod_converse_mod,
};

use chrono::Datelike;

verus! {

/// Leap-year rule of the Gregorian calendar.
pub open spec fn spec_is_leap(year: int) -> bool {
    (year % 4 == 0 && year % 100 != 0) || year % 400 == 0
}

/// Number of days in `month` (1..=12) of `year`.
pub open spec fn spec_days_in_month(year: int, month: int) -> int {
    if month == 2 {
        if spec_is_leap(year) { 29 } else { 28 }
    } else if month == 4 || month == 6 || month == 9 || month == 11 {
        30
    } else {
        31
    }
}

/// A calendar date that exists.
pub open spec fn valid_date(year: int, month: int, day: int) -> bool {
    1 <= month <= 12 && 1 <= day <= spec_days_in_month(year, month)
}

/// Number of leap years among the years 1..=y (extended to all integers).
pub open spec fn leap_count(y: int) -> int {
    y / 4 - y / 100 + y / 400
}

/// Day number of January 1st of `year`.
pub open spec fn year_start(year: int) -> int {
    365 * (year - 1970) + leap_count(year - 1) - 477
}

/// Days of `year` that precede the first day of `month`.
pub open spec fn days_before_month(year: int, month: int) -> int {
    let base: int = if month <= 1 { 0 }
        else if month == 2 { 31 }
        else if month == 3 { 59 }
        else if month == 4 { 90 }
        else if month == 5 { 120 }
        else if month == 6 { 151 }
        else if month == 7 { 181 }
        else if month == 8 { 212 }
        else if month == 9 { 243 }
        else if month == 10 { 273 }
        else if month == 11 { 304 }
        else { 334 };
    if month > 2 && spec_is_leap(year) { base + 1 } else { base }
}

/// Day number (1970-01-01 is day 0) of a calendar date.
pub open spec fn days_from_civil(year: int, month: int, day: int) -> int {
    year_start(year) + days_before_month(year, month) + day - 1
}

/// Smallest and largest day numbers of the dates that `chrono::NaiveDate` represents
/// (January 1st of year -262143 and December 31st of year 262142).
pub open spec fn min_supported_day() -> int {
    -96465292
}

pub open spec fn max_supported_day() -> int {
    95026236
}

/// Years that `chrono::NaiveDate` represents.
pub open spec fn supported_year(year: int) -> bool {
    -262143 <= year <= 262142
}

/// Day number of the instant `t` (seconds since 1970-01-01T00:00:00).
pub open spec fn day_of(t: int) -> int {
    t / 86400
}

/// Day of the week of a day number: 0 is Sunday, 4 is Thursday (1970-01-01).
pub open spec fn weekday(day: int) -> int {
    (day + 4) % 7
}

proof fn lemma_div_step(y: int, k: int)
    requires
        k > 0,
    ensures
        y / k - (y - 1) / k == (if y % k == 0 { 1int } else { 0int }),
{
    lemma_fundamental_div_mod(y, k);
    let q = y / k;
    let r = y % k;
    assert(0 <= r < k);
    if r == 0 {
        assert(y - 1 == (q - 1) * k + (k - 1)) by (nonlinear_arith)
            requires y == k * q + r, r == 0;
        lemma_fundamental_div_mod_converse_div(y - 1, k, q - 1, k - 1);
    } else {
        assert(y - 1 == q * k + (r - 1)) by (nonlinear_arith)
            requires y == k * q + r;
        lemma_fundamental_div_mod_converse_div(y - 1, k, q, r - 1);
    }
}

proof fn lemma_multiple_divides(y: int, a: int, b: int)
    requires
        a > 0,
        b > 0,
        y % (a * b) == 0,
    ensures
        y % a == 0,
{
    assert(a * b > 0) by (nonlinear_arith) requires a > 0, b > 0;
    lemma_fundamental_div_mod(y, a * b);
    let q = y / (a * b);
    assert(y == (b * q) * a + 0) by (nonlinear_arith) requires y == (a * b) * q + 0;
    lemma_fundamental_div_mod_converse_mod(y, a, b * q, 0);
}

/// The leap count grows by one exactly at leap years.
pub proof fn lemma_leap_count_step(y: int)
    ensures
        leap_count(y) - leap_count(y - 1) == (if spec_is_leap(y) { 1int } else { 0int }),
{
    lemma_div_step(y, 4);
    lemma_div_step(y, 100);
    lemma_div_step(y, 400);
    if y % 400 == 0 {
        lemma_multiple_divides(y, 100, 4);
    }
    if y % 100 == 0 {
        lemma_multiple_divides(y, 4, 25);
    }
}

/// Length of a year.
pub proof fn lemma_year_length(y: int)
    ensures
        year_start(y + 1) - year_start(y) == (if spec_is_leap(y) { 366int } else { 365int }),
{
    lemma_leap_count_step(y);
}

/// Years follow each other: later years start later, by at least 365 days per year.
pub proof fn lemma_year_start_mono(y1: int, y2: int)
    requires
        y1 <= y2,
    ensures
        year_start(y2) - year_start(y1) >= 365 * (y2 - y1),
        year_start(y2) - year_start(y1) <= 366 * (y2 - y1),
    decreases y2 - y1,
{
    if y1 < y2 {
        lemma_year_start_mono(y1, y2 - 1);
        lemma_year_length(y2 - 1);
    }
}

/// A valid date lies within its year.
pub proof fn lemma_date_in_year(y: int, m: int, d: int)
    requires
        valid_date(y, m, d),
    ensures
        year_start(y) <= days_from_civil(y, m, d) < year_start(y + 1),
{
    lemma_year_length(y);
}

/// A day number belongs to exactly one year.
pub proof fn lemma_year_unique(y1: int, y2: int, n: int)
    requires
        year_start(y1) <= n < year_start(y1 + 1),
        year_start(y2) <= n < year_start(y2 + 1),
    ensures
        y1 == y2,
{
    if y1 < y2 {
        lemma_year_start_mono(y1 + 1, y2);
    } else if y2 < y1 {
        lemma_year_start_mono(y2 + 1, y1);
    }
}

/// Seconds since 1970-01-01T00:00:00 of a date and time of day, read as if UTC.
pub open spec fn naive_seconds(year: int, month: int, day: int, hour: int, minute: int, second: int) -> int {
    days_from_civil(year, month, day) * 86400 + hour * 3600 + minute * 60 + second
}

/// A calendar date with a time of day.
#[derive(Clone, Copy, Debug, PartialEq, Eq)]
pub struct CivilDateTime {
    pub year: i32,
    pub month: u32,
    pub day: u32,
    pub hour: u32,
    pub minute: u32,
    pub second: u32,
}

impl CivilDateTime {
    /// The date exists and the time of day is a real one.
    pub open spec fn wf(self) -> bool {
        &&& valid_date(self.year as int, self.month as int, self.day as int)
        &&& self.hour < 24
        &&& self.minute < 60
        &&& self.second < 60
    }

    /// The reading in seconds since 1970-01-01T00:00:00.
    pub open spec fn naive(self) -> int {
        naive_seconds(
            self.year as int,
            self.month as int,
            self.day as int,
            self.hour as int,
            self.minute as int,
            self.second as int,
        )
    }
}

/// Day number of an instant in the supported range.
pub fn day_number_of(t: i64) -> (r: Option<i64>)
    ensures
        r is Some <==> (min_supported_day() * 86400 <= t < (max_supported_day() + 1) * 86400),
        r matches Some(d) ==> d == day_of(t as int) && min_supported_day() <= d <= max_supported_day(),
{
    if t < -96465292 * 86400 || t >= 95026237 * 86400 {
        return None;
    }
    let shifted: u64 = (t + 96465292 * 86400) as u64;
    let q: u64 = shifted / 86400;
    let d: i64 = q as i64 - 96465292;
    proof {
        lemma_fundamental_div_mod(shifted as int, 86400);
        lemma_fundamental_div_mod(t as int, 86400);
        let r = shifted as int % 86400;
        assert(t as int == (d as int) * 86400 + r) by (nonlinear_arith)
            requires shifted as int == 86400 * (q as int) + r,
                shifted as int == t as int + 96465292 * 86400,
                d as int == q as int - 96465292;
        lemma_fundamental_div_mod_converse(t as int, 86400, d as int, r);
        assert(q as int <= (95026237 + 96465292)) by (nonlinear_arith)
            requires shifted as int == 86400 * (q as int) + r, r >= 0,
                (shifted as int) < (95026237 + 96465292) * 86400;
    }
    Some(d)
}

/// Calendar date and time of day of a reading in seconds since 1970-01-01T00:00:00.
pub fn civil_of(t: i64) -> (r: Option<CivilDateTime>)
    ensures
        r is Some <==> (min_supported_day() * 86400 <= t < (max_supported_day() + 1) * 86400),
        r matches Some(c) ==> c.wf() && c.naive() == t,
{
    let day = match day_number_of(t) {
        Some(d) => d,
        None => return None,
    };
    let date = date_of_epoch_day(day as i32);
    match date {
        Some((year, month, dom)) => {
            let secs: i64 = t - day * 86400;
            proof {
                lemma_fundamental_div_mod(t as int, 86400);
            }
            let hour: i64 = secs / 3600;
            let rest: i64 = secs % 3600;
            let minute: i64 = rest / 60;
            let second: i64 = rest % 60;
            proof {
                lemma_fundamental_div_mod(secs as int, 3600);
                lemma_fundamental_div_mod(rest as int, 60);
                assert(hour < 24) by (nonlinear_arith)
                    requires secs as int == 3600 * (hour as int) + rest as int, rest >= 0, secs < 86400;
                assert(hour >= 0) by (nonlinear_arith)
                    requires secs as int == 3600 * (hour as int) + rest as int, rest < 3600, secs >= 0;
                assert(minute >= 0) by (nonlinear_arith)
                    requires rest as int == 60 * (minute as int) + second as int, second < 60, rest >= 0;
            }
            Some(CivilDateTime {
                year,
                month,
                day: dom,
                hour: hour as u32,
                minute: minute as u32,
                second: second as u32,
            })
        },
        None => None,
    }
}

/// The calendar date `(year, month, day)` of a day number.
pub open spec fn civil_date(n: int) -> (int, int, int) {
    choose|y: int, m: int, d: int| valid_date(y, m, d) && #[trigger] days_from_civil(y, m, d) == n
}

/// A valid date is the calendar date of its day number.
pub proof fn lemma_civil_date(y: int, m: int, d: int)
    requires
        valid_date(y, m, d),
    ensures
        civil_date(days_from_civil(y, m, d)) == (y, m, d),
{
    let n = days_from_civil(y, m, d);
    assert(valid_date(y, m, d) && days_from_civil(y, m, d) == n);
    let c = civil_date(n);
    lemma_date_in_year(y, m, d);
    lemma_date_in_year(c.0, c.1, c.2);
    lemma_year_unique(y, c.0, n);
}

/// The month after `month` of `year`.
pub open spec fn next_month(year: int, month: int) -> (int, int) {
    if month >= 12 { (year + 1, 1) } else { (year, month + 1) }
}

// ---------------------------------------------------------------------------
// Clock and calendar readings from chrono.
// ---------------------------------------------------------------------------

/// Calls `chrono::NaiveDate::from_ymd_opt` and `NaiveDate::to_epoch_days`.
/// Claimed: the date exists and its year is one that `NaiveDate` represents
/// exactly when a day number comes back, and that number counts the days of the
/// proleptic Gregorian calendar from 1970-01-01.
#[verifier::external_body]
pub fn epoch_day_of_date(year: i32, month: u32, day: u32) -> (r: Option<i32>)
    ensures
        r is Some <==> (valid_date(year as int, month as int, day as int) && supported_year(
            year as int,
        )),
        r matches Some(n) ==> n == days_from_civil(year as int, month as int, day as int),
{
    chrono::NaiveDate::from_ymd_opt(year, month, day).map(|date| date.to_epoch_days())
}

/// Calls `chrono::NaiveDate::from_epoch_days` and reads the year, month and day
/// (`Datelike::year`, `month`, `day`). Claimed: a date comes back for every day
/// number from January 1st of year -262143 to December 31st of year 262142, and
/// the date returned is the valid date with that day number.
#[verifier::external_body]
pub fn date_of_epoch_day(n: i32) -> (r: Option<(i32, u32, u32)>)
    ensures
        r is Some <==> (min_supported_day() <= n <= max_supported_day()),
        r matches Some(date) ==> {
            &&& valid_date(date.0 as int, date.1 as int, date.2 as int)
            &&& supported_year(date.0 as int)
            &&& days_from_civil(date.0 as int, date.1 as int, date.2 as int) == n
        },
{
    chrono::NaiveDate::from_epoch_days(n).map(|date| (date.year(), date.month(), date.day()))
}

/// Calls `chrono::Utc::now` and `DateTime::timestamp`: the current instant in whole
/// seconds since 1970-01-01T00:00:00 UTC. Claimed: the value is not negative
/// (`Utc::now` takes the time elapsed since the Unix epoch) and its day is one that
/// `NaiveDate` represents (`DateTime::from_timestamp` succeeded); nothing else.
#[verifier::external_body]
pub fn utc_now_seconds() -> (r: i64)
    ensures
        0 <= r < (max_supported_day() + 1) * 86400,
{
    chrono::Utc::now().timestamp()
}

/// Calls `chrono::Local::now` and reads the date of the machine's local calendar
/// (`Datelike::year`, `month`, `day`). Claimed: the date exists and its year is one
/// that chrono represents; which date it is depends on the clock and time zone.
#[verifier::external_body]
pub fn local_date() -> (r: (i32, u32, u32))
    ensures
        valid_date(r.0 as int, r.1 as int, r.2 as int),
        supported_year(r.0 as int),
{
    let now = chrono::Local::now();
    (now.year(), now.month(), now.day())
}

} // verus!
