//! Core records: a parking restriction of one address in one month (`DB`), the
//! persisted address row (`LocalData`), persisted settings and notification state.
use vstd::prelude::*;
use crate::calendar::{
    days_from_civil, epoch_day_of_date, max_supported_day, min_supported_day, supported_year,
    valid_date, CivilDateTime,
};
use crate::swedish_time::{local_to_utc, swedish_to_utc};

verus! {

/// Value of an ASCII digit.
pub open spec fn digit_value(c: char) -> int {
    c as int - '0' as int
}

pub open spec fn is_digit(c: char) -> bool {
    '0' <= c <= '9'
}

/// Parses a time range `HHMM-HHMM` into minutes after midnight of its start and
/// end; the end must come after the start on the same day.
pub open spec fn parse_tid(s: Seq<char>) -> Option<(int, int)> {
    if s.len() == 9 && s[4] == '-' && is_digit(s[0]) && is_digit(s[1]) && is_digit(s[2])
        && is_digit(s[3]) && is_digit(s[5]) && is_digit(s[6]) && is_digit(s[7]) && is_digit(
        s[8],
    ) {
        let sh = digit_value(s[0]) * 10 + digit_value(s[1]);
        let sm = digit_value(s[2]) * 10 + digit_value(s[3]);
        let eh = digit_value(s[5]) * 10 + digit_value(s[6]);
        let em = digit_value(s[7]) * 10 + digit_value(s[8]);
        if sh < 24 && sm < 60 && eh < 24 && em < 60 && sh * 60 + sm < eh * 60 + em {
            Some((sh * 60 + sm, eh * 60 + em))
        } else {
            None
        }
    } else {
        None
    }
}

/// Swedish wall-clock readings that the conversion to UTC covers.
pub open spec fn local_reading_in_range(l: int) -> bool {
    min_supported_day() * 86400 + 7200 <= l < (max_supported_day() + 1) * 86400
}

/// UTC instant of a Swedish wall-clock reading: the day `dag` of `month` in
/// `year`, `minute` minutes after midnight.
pub open spec fn swedish_instant(year: int, month: int, dag: int, minute: int) -> Option<int> {
    if valid_date(year, month, dag) && supported_year(year) {
        let l = days_from_civil(year, month, dag) * 86400 + minute * 60;
        if local_reading_in_range(l) {
            local_to_utc(l)
        } else {
            None
        }
    } else {
        None
    }
}

/// Start and end instants of a restriction, when both exist.
pub open spec fn restriction_window(year: int, month: int, dag: int, tid: Seq<char>) -> Option<
    (int, int),
> {
    match parse_tid(tid) {
        Some((s, e)) => match (swedish_instant(year, month, dag, s), swedish_instant(year, month, dag, e)) {
            (Some(a), Some(b)) => Some((a, b)),
            _ => None,
        },
        None => None,
    }
}

/// A parking restriction of one address, placed in one month: the street
/// cleaning happens on day `dag` of `month` in `year`, from `start_minute` to
/// `end_minute` (minutes after midnight, Swedish time). `start_time` and
/// `end_time` are the same moments in seconds since 1970-01-01 UTC.
#[derive(Debug, PartialEq, Eq)]
pub struct DB {
    pub postnummer: Option<String>,
    pub adress: String,
    pub gata: Option<String>,
    pub gatunummer: Option<String>,
    pub info: Option<String>,
    pub taxa: Option<String>,
    pub antal_platser: Option<u64>,
    pub typ_av_parkering: Option<String>,
    pub year: i32,
    pub month: u32,
    pub dag: u8,
    pub start_minute: u32,
    pub end_minute: u32,
    pub start_time: i64,
    pub end_time: i64,
}

/// The fields from which a restriction is rebuilt.
pub struct DBParams {
    pub postnummer: Option<String>,
    pub adress: String,
    pub gata: Option<String>,
    pub gatunummer: Option<String>,
    pub info: Option<String>,
    pub dag: u8,
    pub tid: String,
    pub taxa: Option<String>,
    pub antal_platser: Option<u64>,
    pub typ_av_parkering: Option<String>,
    pub year: i32,
    pub month: u32,
}

impl Clone for DB {
    fn clone(&self) -> (r: Self)
        ensures
            r == *self,
    {
        DB {
            postnummer: self.postnummer.clone(),
            adress: self.adress.clone(),
            gata: self.gata.clone(),
            gatunummer: self.gatunummer.clone(),
            info: self.info.clone(),
            taxa: self.taxa.clone(),
            antal_platser: self.antal_platser,
            typ_av_parkering: self.typ_av_parkering.clone(),
            year: self.year,
            month: self.month,
            dag: self.dag,
            start_minute: self.start_minute,
            end_minute: self.end_minute,
            start_time: self.start_time,
            end_time: self.end_time,
        }
    }
}

/// Reads the two ASCII digits at `i` and `i + 1` as a number.
fn two_digits(s: &str, i: usize) -> (r: Option<u32>)
    requires
        i < 8,
        i + 1 < s@.len(),
    ensures
        r is Some <==> (is_digit(s@[i as int]) && is_digit(s@[i + 1])),
        r matches Some(v) ==> v == digit_value(s@[i as int]) * 10 + digit_value(s@[i + 1]),
{
    let a = s.get_char(i);
    let b = s.get_char(i + 1);
    if '0' <= a && a <= '9' && '0' <= b && b <= '9' {
        Some(((a as u32) - ('0' as u32)) * 10 + ((b as u32) - ('0' as u32)))
    } else {
        None
    }
}

/// Parses a time range `HHMM-HHMM` into minutes after midnight.
pub fn parse_time_range(tid: &str) -> (r: Option<(u32, u32)>)
    ensures
        r matches Some(p) ==> parse_tid(tid@) == Some((p.0 as int, p.1 as int)),
        r is None ==> parse_tid(tid@) is None,
{
    let n = tid.unicode_len();
    if n != 9 {
        return None;
    }
    if tid.get_char(4) != '-' {
        return None;
    }
    let sh = match two_digits(tid, 0) { Some(v) => v, None => return None };
    let sm = match two_digits(tid, 2) { Some(v) => v, None => return None };
    let eh = match two_digits(tid, 5) { Some(v) => v, None => return None };
    let em = match two_digits(tid, 7) { Some(v) => v, None => return None };
    if sh < 24 && sm < 60 && eh < 24 && em < 60 && sh * 60 + sm < eh * 60 + em {
        Some((sh * 60 + sm, eh * 60 + em))
    } else {
        None
    }
}

/// UTC instant of a Swedish wall-clock reading on a given day.
pub fn instant_of(year: i32, month: u32, dag: u8, minute: u32) -> (r: Option<i64>)
    ensures
        r matches Some(u) ==> swedish_instant(year as int, month as int, dag as int, minute as int)
            == Some(u as int),
        r is None ==> swedish_instant(year as int, month as int, dag as int, minute as int) is None,
{
    let day = match epoch_day_of_date(year, month, dag as u32) {
        Some(d) => d,
        None => return None,
    };
    let l: i64 = day as i64 * 86400 + minute as i64 * 60;
    if l < -96465292 * 86400 + 7200 || l >= 95026237 * 86400 {
        return None;
    }
    swedish_to_utc(l)
}

impl DB {
    /// Well-formed: the day exists and the instants are those of the Swedish
    /// wall-clock readings.
    pub open spec fn wf(&self) -> bool {
        &&& self.start_minute < self.end_minute < 1440
        &&& swedish_instant(self.year as int, self.month as int, self.dag as int, self.start_minute as int)
            == Some(self.start_time as int)
        &&& swedish_instant(self.year as int, self.month as int, self.dag as int, self.end_minute as int)
            == Some(self.end_time as int)
    }

    /// Builds the restriction of day `dag` of `month` in `year` during `tid`
    /// (`HHMM-HHMM`); nothing when the day does not exist, `tid` is malformed, or a
    /// reading falls in a daylight-saving change.
    pub fn from_dag_tid(
        postnummer: Option<String>,
        adress: String,
        gata: Option<String>,
        gatunummer: Option<String>,
        info: Option<String>,
        dag: u8,
        tid: &str,
        taxa: Option<String>,
        antal_platser: Option<u64>,
        typ_av_parkering: Option<String>,
        year: i32,
        month: u32,
    ) -> (r: Option<DB>)
        ensures
            r is Some <==> restriction_window(year as int, month as int, dag as int, tid@) is Some,
            r matches Some(db) ==> {
                &&& db.wf()
                &&& db.postnummer == postnummer
                &&& db.adress == adress
                &&& db.gata == gata
                &&& db.gatunummer == gatunummer
                &&& db.info == info
                &&& db.taxa == taxa
                &&& db.antal_platser == antal_platser
                &&& db.typ_av_parkering == typ_av_parkering
                &&& db.year == year
                &&& db.month == month
                &&& db.dag == dag
                &&& parse_tid(tid@) == Some((db.start_minute as int, db.end_minute as int))
                &&& restriction_window(year as int, month as int, dag as int, tid@) == Some(
                    (db.start_time as int, db.end_time as int),
                )
            },
    {
        let (start_minute, end_minute) = match parse_time_range(tid) {
            Some(p) => p,
            None => return None,
        };
        let start_time = match instant_of(year, month, dag, start_minute) {
            Some(u) => u,
            None => return None,
        };
        let end_time = match instant_of(year, month, dag, end_minute) {
            Some(u) => u,
            None => return None,
        };
        Some(DB {
            postnummer,
            adress,
            gata,
            gatunummer,
            info,
            taxa,
            antal_platser,
            typ_av_parkering,
            year,
            month,
            dag,
            start_minute,
            end_minute,
            start_time,
            end_time,
        })
    }

    /// Builds a restriction from its persisted fields, as `from_dag_tid` does.
    pub fn from_params(params: DBParams) -> (r: Option<DB>)
        ensures
            r is Some <==> restriction_window(
                params.year as int,
                params.month as int,
                params.dag as int,
                params.tid@,
            ) is Some,
            r matches Some(db) ==> {
                &&& db.wf()
                &&& db.postnummer == params.postnummer
                &&& db.adress == params.adress
                &&& db.gata == params.gata
                &&& db.gatunummer == params.gatunummer
                &&& db.info == params.info
                &&& db.taxa == params.taxa
                &&& db.antal_platser == params.antal_platser
                &&& db.typ_av_parkering == params.typ_av_parkering
                &&& db.year == params.year
                &&& db.month == params.month
                &&& db.dag == params.dag
                &&& parse_tid(params.tid@) == Some((db.start_minute as int, db.end_minute as int))
                &&& restriction_window(
                    params.year as int,
                    params.month as int,
                    params.dag as int,
                    params.tid@,
                ) == Some((db.start_time as int, db.end_time as int))
            },
    {
        DB::from_dag_tid(
            params.postnummer,
            params.adress,
            params.gata,
            params.gatunummer,
            params.info,
            params.dag,
            params.tid.as_str(),
            params.taxa,
            params.antal_platser,
            params.typ_av_parkering,
            params.year,
            params.month,
        )
    }

    /// The restriction is in force at `now` (seconds since 1970-01-01 UTC).
    pub fn is_active(&self, now: i64) -> (r: bool)
        ensures
            r == (self.start_time <= now && now < self.end_time),
    {
        self.start_time <= now && now < self.end_time
    }

    /// Seconds from `now` until the restriction ends; nothing once it has ended.
    pub fn time_until_end(&self, now: i64) -> (r: Option<u64>)
        ensures
            r is Some <==> now < self.end_time,
            r matches Some(d) ==> d == self.end_time - now,
    {
        if now < self.end_time {
            Some((self.end_time as i128 - now as i128) as u64)
        } else {
            None
        }
    }

    /// Seconds from `now` until the restriction starts; nothing once it has started.
    pub fn time_until_start(&self, now: i64) -> (r: Option<u64>)
        ensures
            r is Some <==> now < self.start_time,
            r matches Some(d) ==> d == self.start_time - now,
    {
        if now < self.start_time {
            Some((self.start_time as i128 - now as i128) as u64)
        } else {
            None
        }
    }

    /// Swedish date and time at which the restriction starts.
    pub fn start_time_swedish(&self) -> (r: CivilDateTime)
        ensures
            r.year == self.year,
            r.month == self.month,
            r.day == self.dag,
            r.hour * 60 + r.minute == self.start_minute,
            r.minute < 60,
            r.second == 0,
    {
        CivilDateTime {
            year: self.year,
            month: self.month,
            day: self.dag as u32,
            hour: self.start_minute / 60,
            minute: self.start_minute % 60,
            second: 0,
        }
    }

    /// Swedish date and time at which the restriction ends.
    pub fn end_time_swedish(&self) -> (r: CivilDateTime)
        ensures
            r.year == self.year,
            r.month == self.month,
            r.day == self.dag,
            r.hour * 60 + r.minute == self.end_minute,
            r.minute < 60,
            r.second == 0,
    {
        CivilDateTime {
            year: self.year,
            month: self.month,
            day: self.dag as u32,
            hour: self.end_minute / 60,
            minute: self.end_minute % 60,
            second: 0,
        }
    }
}

/// One persisted record of the notification tracker: the bucket last seen for
/// an address, in the month `year_month` (`year * 100 + month`).
#[derive(Debug, PartialEq, Eq)]
pub struct NotificationStateEntry {
    pub address_id: u64,
    pub bucket: String,
    pub year_month: u32,
}

impl Clone for NotificationStateEntry {
    fn clone(&self) -> (r: Self)
        ensures
            r == *self,
    {
        NotificationStateEntry {
            address_id: self.address_id,
            bucket: self.bucket.clone(),
            year_month: self.year_month,
        }
    }
}

/// The persisted record of the user's preferences.
#[derive(Debug, PartialEq, Eq)]
pub struct SettingsData {
    pub stadning_nu: bool,
    pub sex_timmar: bool,
    pub en_dag: bool,
    pub theme: String,
    pub language: String,
}

impl Clone for SettingsData {
    fn clone(&self) -> (r: Self)
        ensures
            r == *self,
    {
        SettingsData {
            stadning_nu: self.stadning_nu,
            sex_timmar: self.sex_timmar,
            en_dag: self.en_dag,
            theme: self.theme.clone(),
            language: self.language.clone(),
        }
    }
}

/// The persisted row of a followed address, with the fields of its restriction
/// when it has one.
#[derive(Debug, PartialEq, Eq)]
pub struct LocalData {
    pub valid: bool,
    pub active: bool,
    pub postnummer: Option<String>,
    pub adress: String,
    pub gata: Option<String>,
    pub gatunummer: Option<String>,
    pub info: Option<String>,
    pub tid: Option<String>,
    pub dag: Option<u8>,
    pub taxa: Option<String>,
    pub antal_platser: Option<u64>,
    pub typ_av_parkering: Option<String>,
}

impl Clone for LocalData {
    fn clone(&self) -> (r: Self)
        ensures
            r == *self,
    {
        LocalData {
            valid: self.valid,
            active: self.active,
            postnummer: self.postnummer.clone(),
            adress: self.adress.clone(),
            gata: self.gata.clone(),
            gatunummer: self.gatunummer.clone(),
            info: self.info.clone(),
            tid: self.tid.clone(),
            dag: self.dag,
            taxa: self.taxa.clone(),
            antal_platser: self.antal_platser,
            typ_av_parkering: self.typ_av_parkering.clone(),
        }
    }
}

} // verus!
