//! Countdown and urgency buckets of a restriction, measured from a given instant;
//! a restriction that has passed this month is counted to its day in the next month.
use vstd::prelude::*;
use crate::calendar::{
    civil_date, date_of_epoch_day, day_of, day_number_of, lemma_civil_date, max_supported_day,
    min_supported_day, next_month, utc_now_seconds, valid_date,
};
use crate::structs::{instant_of, swedish_instant, DB};
use crate::text::{decimal, decimal2, u64_to_string, u64_to_string2};

verus! {

/// Urgency categories of restrictions, by time left.
#[derive(Clone, Copy, Debug, PartialEq, Eq, Structural, Hash, PartialOrd, Ord)]
pub enum TimeBucket {
    /// The restriction is in force now.
    Now,
    /// Starts within 6 hours.
    Within6Hours,
    /// Starts within 1 day.
    Within1Day,
    /// Starts within 30 days.
    Within1Month,
    /// Starts more than 30 days away.
    MoreThan1Month,
    /// No coming occurrence could be placed.
    Invalid,
}

/// Start of the restriction's day in the month after the UTC month of `now`.
pub open spec fn next_month_start(db: DB, now: int) -> Option<int> {
    let n = day_of(now);
    if min_supported_day() <= n <= max_supported_day() {
        let c = civil_date(n);
        let nm = next_month(c.0, c.1);
        swedish_instant(nm.0, nm.1, db.dag as int, db.start_minute as int)
    } else {
        None
    }
}

/// Seconds from `now` to the restriction's start in the next month, if that lies ahead.
pub open spec fn delay_to_next_month(db: DB, now: int) -> Option<int> {
    match next_month_start(db, now) {
        Some(s) => if now < s { Some(s - now) } else { None },
        None => None,
    }
}

/// Seconds from `now` until the restriction ends, while it has not ended.
pub open spec fn until_end(db: DB, now: int) -> Option<int> {
    if now < db.end_time { Some(db.end_time - now) } else { None }
}

/// Seconds from `now` until the restriction starts, while it has not started.
pub open spec fn until_start(db: DB, now: int) -> Option<int> {
    if now < db.start_time { Some(db.start_time - now) } else { None }
}

/// The restriction is in force at `now`.
pub open spec fn active_at(db: DB, now: int) -> bool {
    db.start_time <= now < db.end_time
}

/// Seconds until the restriction ends, or else until its start next month.
pub open spec fn next_occurrence_delay(db: DB, now: int) -> Option<int> {
    if now < db.end_time { Some(db.end_time - now) } else { delay_to_next_month(db, now) }
}

/// Seconds until the restriction starts, or else until its start next month.
pub open spec fn next_start_delay(db: DB, now: int) -> Option<int> {
    if now < db.start_time { Some(db.start_time - now) } else { delay_to_next_month(db, now) }
}

/// The urgency bucket of a restriction at `now`.
pub open spec fn bucket_at(db: DB, now: int) -> TimeBucket {
    if db.start_time <= now < db.end_time {
        TimeBucket::Now
    } else {
        match next_start_delay(db, now) {
            None => TimeBucket::Invalid,
            Some(d) => if d <= 6 * 3600 {
                TimeBucket::Within6Hours
            } else if d <= 86400 {
                TimeBucket::Within1Day
            } else if d <= 30 * 86400 {
                TimeBucket::Within1Month
            } else {
                TimeBucket::MoreThan1Month
            },
        }
    }
}

fn next_month_delay(restriction: &DB, now: i64) -> (r: Option<u64>)
    ensures
        match delay_to_next_month(*restriction, now as int) {
            Some(d) => r == Some(d as u64) && d > 0,
            None => r is None,
        },
{
    let day = match day_number_of(now) {
        Some(d) => d,
        None => return None,
    };
    let (year, month, dom) = match date_of_epoch_day(day as i32) {
        Some(c) => c,
        None => return None,
    };
    proof {
        lemma_civil_date(year as int, month as int, dom as int);
    }
    let (ny, nm) = if month >= 12 { (year + 1, 1u32) } else { (year, month + 1) };
    match instant_of(ny, nm, restriction.dag, restriction.start_minute) {
        Some(s) => if now < s { Some((s as i128 - now as i128) as u64) } else { None },
        None => None,
    }
}

/// Seconds from `now` until the restriction ends; if it has ended, until its start
/// on the same day next month.
pub fn time_until_next_occurrence_at(restriction: &DB, now: i64) -> (r: Option<u64>)
    ensures
        match next_occurrence_delay(*restriction, now as int) {
            Some(d) => r == Some(d as u64) && d > 0,
            None => r is None,
        },
{
    match restriction.time_until_end(now) {
        Some(d) => Some(d),
        None => next_month_delay(restriction, now),
    }
}

/// Seconds from `now` until the restriction starts; if it has started, until its
/// start on the same day next month.
pub fn time_until_next_start_at(restriction: &DB, now: i64) -> (r: Option<u64>)
    ensures
        match next_start_delay(*restriction, now as int) {
            Some(d) => r == Some(d as u64) && d > 0,
            None => r is None,
        },
{
    match restriction.time_until_start(now) {
        Some(d) => Some(d),
        None => next_month_delay(restriction, now),
    }
}

/// The urgency bucket of a restriction is decided by the time until it starts: in
/// force is `Now`; starting within 6 hours `Within6Hours`, within a day
/// `Within1Day`, within 30 days `Within1Month`, later `MoreThan1Month`; once it
/// has ended, the same by the time until its start next month, and `Invalid`
/// when there is none.
pub proof fn lemma_bucket_by_time_to_start(db: DB, now: int)
    ensures
        db.start_time <= now < db.end_time ==> bucket_at(db, now) == TimeBucket::Now,
        now < db.start_time && db.start_time - now <= 6 * 3600 ==> bucket_at(db, now) == TimeBucket::Within6Hours,
        now < db.start_time && 6 * 3600 < db.start_time - now <= 86400 ==> bucket_at(db, now)
            == TimeBucket::Within1Day,
        now < db.start_time && 86400 < db.start_time - now <= 30 * 86400 ==> bucket_at(db, now)
            == TimeBucket::Within1Month,
        now < db.start_time && db.start_time - now > 30 * 86400 ==> bucket_at(db, now)
            == TimeBucket::MoreThan1Month,
        now >= db.end_time && now >= db.start_time ==> match delay_to_next_month(db, now) {
            None => bucket_at(db, now) == TimeBucket::Invalid,
            Some(d) => bucket_at(db, now) == (if d <= 6 * 3600 {
                TimeBucket::Within6Hours
            } else if d <= 86400 {
                TimeBucket::Within1Day
            } else if d <= 30 * 86400 {
                TimeBucket::Within1Month
            } else {
                TimeBucket::MoreThan1Month
            }),
        },
{
}

/// The urgency bucket of a restriction at `now`.
pub fn bucket_for_at(restriction: &DB, now: i64) -> (r: TimeBucket)
    ensures
        r == bucket_at(*restriction, now as int),
        restriction.start_time <= now < restriction.end_time ==> r == TimeBucket::Now,
        now < restriction.start_time && restriction.start_time - now <= 6 * 3600 ==> r == TimeBucket::Within6Hours,
        now < restriction.start_time && 6 * 3600 < restriction.start_time - now <= 86400 ==> r
            == TimeBucket::Within1Day,
        now < restriction.start_time && 86400 < restriction.start_time - now <= 30 * 86400 ==> r
            == TimeBucket::Within1Month,
        now < restriction.start_time && restriction.start_time - now > 30 * 86400 ==> r
            == TimeBucket::MoreThan1Month,
{
    if restriction.is_active(now) {
        return TimeBucket::Now;
    }
    match time_until_next_start_at(restriction, now) {
        None => TimeBucket::Invalid,
        Some(d) => if d <= 6 * 3600 {
            TimeBucket::Within6Hours
        } else if d <= 86400 {
            TimeBucket::Within1Day
        } else if d <= 30 * 86400 {
            TimeBucket::Within1Month
        } else {
            TimeBucket::MoreThan1Month
        },
    }
}

/// `H`h `MM`m `SS`s for a number of seconds.
pub open spec fn format_hms(secs: nat) -> Seq<char> {
    decimal(secs / 3600) + "h "@ + decimal2((secs / 60) % 60) + "m "@ + decimal2(secs % 60) + "s"@
}

/// `H`h `MM`m for a number of seconds.
pub open spec fn format_hm(secs: nat) -> Seq<char> {
    decimal(secs / 3600) + "h "@ + decimal2((secs / 60) % 60) + "m"@
}

/// `D`d `HH`h `MM`m for a number of seconds.
pub open spec fn format_dhm(secs: nat) -> Seq<char> {
    decimal(secs / 86400) + "d "@ + decimal2((secs / 3600) % 24) + "h "@ + decimal2((secs / 60) % 60)
        + "m"@
}

/// The countdown text of a restriction at `now`: while in force, hours, minutes
/// and seconds to its end; within six hours, hours and minutes to its start;
/// further away, days, hours and minutes to its start; nothing for `Invalid`.
pub open spec fn countdown_text(db: DB, now: int) -> Option<Seq<char>> {
    let b = bucket_at(db, now);
    let remaining = if b == TimeBucket::Now { next_occurrence_delay(db, now) } else { next_start_delay(db, now) };
    if b == TimeBucket::Invalid {
        None
    } else {
        match remaining {
            None => None,
            Some(d) => if b == TimeBucket::Now {
                Some(format_hms(d as nat))
            } else if b == TimeBucket::Within6Hours {
                Some(format_hm(d as nat))
            } else {
                Some(format_dhm(d as nat))
            },
        }
    }
}

/// The next occurrence of a restriction: while it has not ended, its end; once
/// it has ended, its start on the same day of the next month (the month after the
/// UTC date of `now`), when that day and hour exist and lie ahead; nothing when
/// the day does not exist in that month (such as February 30).
pub proof fn lemma_next_occurrence(db: DB, now: int)
    requires
        db.wf(),
        min_supported_day() <= day_of(now) <= max_supported_day(),
    ensures
        now < db.end_time ==> next_occurrence_delay(db, now) == Some(db.end_time - now) && db.end_time - now > 0,
        now >= db.end_time ==> ({
            let c = civil_date(day_of(now));
            let nm = next_month(c.0, c.1);
            &&& (next_occurrence_delay(db, now) matches Some(d) ==> swedish_instant(
                nm.0,
                nm.1,
                db.dag as int,
                db.start_minute as int,
            ) == Some(now + d) && d > 0)
            &&& (next_occurrence_delay(db, now) is Some <==> (swedish_instant(
                nm.0,
                nm.1,
                db.dag as int,
                db.start_minute as int,
            ) matches Some(s) && now < s))
            &&& (!valid_date(nm.0, nm.1, db.dag as int) ==> next_occurrence_delay(db, now) is None)
        }),
{
}

/// A countdown is shown exactly for the restrictions whose bucket is not `Invalid`,
/// and a restriction in force counts down to its end.
pub proof fn lemma_countdown_iff_placed(db: DB, now: int)
    ensures
        countdown_text(db, now) is None <==> bucket_at(db, now) == TimeBucket::Invalid,
        active_at(db, now) ==> bucket_at(db, now) == TimeBucket::Now && countdown_text(db, now) == Some(
            format_hms((db.end_time - now) as nat),
        ),
{
}

fn hms(secs: u64) -> (r: String)
    ensures
        r@ == format_hms(secs as nat),
{
    let mut s = u64_to_string(secs / 3600);
    s.append("h ");
    let m = u64_to_string2((secs / 60) % 60);
    s.append(m.as_str());
    s.append("m ");
    let sec = u64_to_string2(secs % 60);
    s.append(sec.as_str());
    s.append("s");
    s
}

fn hm(secs: u64) -> (r: String)
    ensures
        r@ == format_hm(secs as nat),
{
    let mut s = u64_to_string(secs / 3600);
    s.append("h ");
    let m = u64_to_string2((secs / 60) % 60);
    s.append(m.as_str());
    s.append("m");
    s
}

fn dhm(secs: u64) -> (r: String)
    ensures
        r@ == format_dhm(secs as nat),
{
    let mut s = u64_to_string(secs / 86400);
    s.append("d ");
    let h = u64_to_string2((secs / 3600) % 24);
    s.append(h.as_str());
    s.append("h ");
    let m = u64_to_string2((secs / 60) % 60);
    s.append(m.as_str());
    s.append("m");
    s
}

/// Countdown text of a restriction at `now`.
pub fn format_countdown_at(restriction: &DB, now: i64) -> (r: Option<String>)
    ensures
        match countdown_text(*restriction, now as int) {
            Some(t) => r matches Some(s) && s@ == t,
            None => r is None,
        },
{
    let bucket = bucket_for_at(restriction, now);
    let remaining = match bucket {
        TimeBucket::Now => match time_until_next_occurrence_at(restriction, now) {
            Some(d) => d,
            None => return None,
        },
        TimeBucket::Invalid => return None,
        _ => match time_until_next_start_at(restriction, now) {
            Some(d) => d,
            None => return None,
        },
    };
    match bucket {
        TimeBucket::Now => Some(hms(remaining)),
        TimeBucket::Within6Hours => Some(hm(remaining)),
        _ => Some(dhm(remaining)),
    }
}

/// Seconds until the restriction ends, from the current time.
pub fn remaining_duration(restriction: &DB) -> (r: Option<u64>)
    ensures
        exists|now: i64|
            match #[trigger] until_end(*restriction, now as int) {
                Some(d) => r == Some(d as u64),
                None => r is None,
            },
{
    let now = utc_now_seconds();
    let r = restriction.time_until_end(now);
    assert(match until_end(*restriction, now as int) {
        Some(d) => r == Some(d as u64),
        None => r is None,
    });
    r
}

/// `time_until_next_occurrence_at` from the current time.
pub fn time_until_next_occurrence(restriction: &DB) -> (r: Option<u64>)
    ensures
        exists|now: i64|
            match #[trigger] next_occurrence_delay(*restriction, now as int) {
                Some(d) => r == Some(d as u64),
                None => r is None,
            },
{
    let now = utc_now_seconds();
    time_until_next_occurrence_at(restriction, now)
}

/// `time_until_next_start_at` from the current time.
pub fn time_until_next_start(restriction: &DB) -> (r: Option<u64>)
    ensures
        exists|now: i64|
            match #[trigger] next_start_delay(*restriction, now as int) {
                Some(d) => r == Some(d as u64),
                None => r is None,
            },
{
    let now = utc_now_seconds();
    time_until_next_start_at(restriction, now)
}

/// `bucket_for_at` from the current time.
pub fn bucket_for(restriction: &DB) -> (r: TimeBucket)
    ensures
        exists|now: i64| r == #[trigger] bucket_at(*restriction, now as int),
{
    let now = utc_now_seconds();
    bucket_for_at(restriction, now)
}

/// `format_countdown_at` from the current time.
pub fn format_countdown(restriction: &DB) -> (r: Option<String>)
    ensures
        exists|now: i64|
            match #[trigger] countdown_text(*restriction, now as int) {
                Some(t) => r matches Some(s) && s@ == t,
                None => r is None,
            },
{
    let now = utc_now_seconds();
    format_countdown_at(restriction, now)
}

} // verus!
