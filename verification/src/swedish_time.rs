//! Swedish civil time (Europe/Stockholm): CET, UTC+1, in winter and CEST,
//! UTC+2, from 01:00 UTC on the last Sunday of March to 01:00 UTC on the last
//! Sunday of October, the rule in force since 1996.
use vstd::prelude::*;
use vstd::arithmetic::div_mod::{lemma_fundamental_div_mod, lemma_fundamental_div_mod_converse};
use crate::calendar::{
    date_of_epoch_day, days_from_civil, epoch_day_of_date, lemma_date_in_year, lemma_year_length,
    lemma_year_start_mono, lemma_year_unique, max_supported_day, min_supported_day, supported_year,
    weekday, year_start, day_of, day_number_of, naive_seconds, CivilDateTime, civil_of,
};

verus! {

/// Day number of the last Sunday of a 31-day month.
pub open spec fn last_sunday(year: int, month: int) -> int {
    let n = days_from_civil(year, month, 31);
    n - weekday(n)
}

/// First second of summer time in `year` (01:00 UTC on the last Sunday of March).
pub open spec fn summer_start(year: int) -> int {
    last_sunday(year, 3) * 86400 + 3600
}

/// First second of winter time in `year` (01:00 UTC on the last Sunday of October).
pub open spec fn summer_end(year: int) -> int {
    last_sunday(year, 10) * 86400 + 3600
}

/// Whether the instant `t` (UTC seconds) falls in Swedish summer time.
pub open spec fn is_summer_time(t: int) -> bool {
    exists|y: int| #[trigger] summer_start(y) <= t < summer_end(y)
}

/// Offset of Swedish time from UTC at the instant `t`, in seconds.
pub open spec fn utc_offset(t: int) -> int {
    if is_summer_time(t) { 7200 } else { 3600 }
}

/// Swedish wall-clock reading (seconds counted as if UTC) at the instant `t`.
pub open spec fn local_of(t: int) -> int {
    t + utc_offset(t)
}

/// The single instant at which Swedish clocks read `l`; none where the reading is
/// skipped (spring) or occurs twice (autumn).
pub open spec fn local_to_utc(l: int) -> Option<int> {
    let standard = l - 3600;
    let summer = l - 7200;
    let standard_ok = local_of(standard) == l;
    let summer_ok = local_of(summer) == l;
    if standard_ok && !summer_ok {
        Some(standard)
    } else if summer_ok && !standard_ok {
        Some(summer)
    } else {
        None
    }
}

/// Instants whose day lies in the range that the calendar readings cover, with a
/// margin of one day on each side for the offsets.
pub open spec fn instant_in_range(t: int) -> bool {
    (min_supported_day() + 1) * 86400 <= t < max_supported_day() * 86400
}

proof fn lemma_day_bounds(t: int, a: int, b: int)
    requires
        a * 86400 <= t < b * 86400,
    ensures
        a <= t / 86400 < b,
{
    lemma_fundamental_div_mod(t, 86400);
    let q = t / 86400;
    let r = t % 86400;
    assert(0 <= r < 86400);
    if q < a {
        assert(q * 86400 + r < a * 86400) by (nonlinear_arith) requires q < a, r < 86400;
        assert(false);
    }
    if q >= b {
        assert(q * 86400 + r >= b * 86400) by (nonlinear_arith) requires q >= b, r >= 0;
        assert(false);
    }
}

proof fn lemma_day_of_bounds(t: int)
    ensures
        day_of(t) * 86400 <= t < day_of(t) * 86400 + 86400,
{
    lemma_fundamental_div_mod(t, 86400);
}

/// The summer-time window of a year lies inside that year.
proof fn lemma_window_in_year(y: int)
    ensures
        year_start(y) * 86400 <= summer_start(y),
        summer_end(y) < year_start(y + 1) * 86400,
        summer_start(y) < summer_end(y),
{
    lemma_year_length(y);
    let n3 = days_from_civil(y, 3, 31);
    let n10 = days_from_civil(y, 10, 31);
    assert(0 <= weekday(n3) < 7);
    assert(0 <= weekday(n10) < 7);
    assert(year_start(y) <= last_sunday(y, 3));
    assert(last_sunday(y, 3) < last_sunday(y, 10));
    assert(last_sunday(y, 10) + 1 < year_start(y + 1));
}

/// The summer-time windows of different years do not overlap.
proof fn lemma_summer_year(t: int, y: int, y2: int)
    requires
        year_start(y) * 86400 <= t < year_start(y + 1) * 86400,
        summer_start(y2) <= t < summer_end(y2),
    ensures
        y == y2,
{
    lemma_window_in_year(y2);
    lemma_day_bounds(t, year_start(y), year_start(y + 1));
    lemma_day_bounds(t, year_start(y2), year_start(y2 + 1));
    lemma_year_unique(y, y2, t / 86400);
}

/// Within year `y`, summer time is decided by the window of `y` alone.
pub proof fn lemma_summer_time_in_year(t: int, y: int)
    requires
        year_start(y) * 86400 <= t < year_start(y + 1) * 86400,
    ensures
        is_summer_time(t) <==> (summer_start(y) <= t < summer_end(y)),
{
    if is_summer_time(t) {
        let y2 = choose|y2: int| #[trigger] summer_start(y2) <= t < summer_end(y2);
        lemma_summer_year(t, y, y2);
    }
}

/// Weekday of a day number in the supported range.
fn weekday_of(n: i64) -> (r: i64)
    requires
        min_supported_day() <= n <= max_supported_day(),
    ensures
        r == weekday(n as int),
        0 <= r < 7,
{
    let shifted: i64 = n + 4 + 98000000;
    let r = shifted % 7;
    proof {
        lemma_fundamental_div_mod(shifted as int, 7);
        let q = shifted as int / 7;
        assert(n as int + 4 == (q - 14000000) * 7 + r as int) by (nonlinear_arith)
            requires shifted as int == 7 * q + r as int, shifted as int == n as int + 4 + 98000000;
        lemma_fundamental_div_mod_converse(n as int + 4, 7, q - 14000000, r as int);
    }
    r
}

/// Day number of the last Sunday of March or October of a supported year.
fn last_sunday_of(year: i32, month: u32) -> (r: i64)
    requires
        supported_year(year as int),
        month == 3 || month == 10,
    ensures
        r == last_sunday(year as int, month as int),
{
    let n = epoch_day_of_date(year, month, 31);
    match n {
        Some(n) => {
            proof {
                lemma_year_start_mono(-262143, year as int);
                lemma_year_start_mono(year as int, 262143);
                lemma_date_in_year(year as int, month as int, 31);
            }
            let w = weekday_of(n as i64);
            n as i64 - w
        },
        None => {
            // unreachable: March 31st and October 31st exist in every year
            0
        },
    }
}

/// Whether the instant `t` falls in Swedish summer time; nothing outside the
/// supported range.
pub fn summer_time_at(t: i64) -> (r: Option<bool>)
    ensures
        r is Some <==> (min_supported_day() * 86400 <= t < (max_supported_day() + 1) * 86400),
        r matches Some(b) ==> b == is_summer_time(t as int),
{
    let day = match day_number_of(t) {
        Some(d) => d,
        None => return None,
    };
    let date = date_of_epoch_day(day as i32);
    match date {
        Some((year, month, dom)) => {
            proof {
                lemma_date_in_year(year as int, month as int, dom as int);
                lemma_day_of_bounds(t as int);
                lemma_summer_time_in_year(t as int, year as int);
            }
            let start = last_sunday_of(year, 3) * 86400 + 3600;
            let end = last_sunday_of(year, 10) * 86400 + 3600;
            Some(start <= t && t < end)
        },
        None => None,
    }
}

/// The instant at which Swedish clocks read `l` (seconds counted as if UTC), when
/// there is exactly one; checked over the supported range.
pub fn swedish_to_utc(l: i64) -> (r: Option<i64>)
    ensures
        r matches Some(u) ==> local_to_utc(l as int) == Some(u as int),
        (min_supported_day() * 86400 + 7200 <= l < (max_supported_day() + 1) * 86400) ==> r
            == match local_to_utc(l as int) {
                Some(u) => Some(u as i64),
                None => None::<i64>,
            },
{
    if l < -96465292 * 86400 + 7200 || l >= 95026237 * 86400 {
        return None;
    }
    let standard = l - 3600;
    let summer = l - 7200;
    let s1 = match summer_time_at(standard) {
        Some(b) => b,
        None => return None,
    };
    let s2 = match summer_time_at(summer) {
        Some(b) => b,
        None => return None,
    };
    let standard_ok = !s1;
    let summer_ok = s2;
    if standard_ok && !summer_ok {
        Some(standard)
    } else if summer_ok && !standard_ok {
        Some(summer)
    } else {
        None
    }
}

/// Swedish wall-clock reading at the instant `t`; checked over the supported range.
pub fn swedish_local_of(t: i64) -> (r: Option<i64>)
    ensures
        r is Some <==> (min_supported_day() * 86400 <= t < (max_supported_day() + 1) * 86400),
        r matches Some(l) ==> l == local_of(t as int),
{
    match summer_time_at(t) {
        Some(true) => Some(t + 7200),
        Some(false) => Some(t + 3600),
        None => None,
    }
}

/// Swedish calendar date and time of day at the instant `t`.
pub fn swedish_civil_of(t: i64) -> (r: Option<CivilDateTime>)
    ensures
        instant_in_range(t as int) ==> r is Some,
        r matches Some(c) ==> c.wf() && c.naive() == local_of(t as int),
{
    match swedish_local_of(t) {
        Some(l) => civil_of(l),
        None => None,
    }
}

} // verus!
