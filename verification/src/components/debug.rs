//! Example addresses for debugging, restored from rows whose address line may end
//! with the postal code (`Idunsgatan 67B 214 46`) and whose hours may hold spaces.
use vstd::prelude::*;
use crate::components::matching::{first_match, input_error, match_address, MatchResult};
use crate::components::storage::{kept_rows, opt_string, opt_text, street_parts, street_split};
use crate::structs::{parse_tid, restriction_window, LocalData, DB};
use crate::text::{
    all_digits, remove_spaces, remove_spaces_string, split_whitespace_words, string_views, trim, trim_str, words,
};
use crate::ui::StoredAddress;

verus! {

/// The postal code at the end of an address line: once the line is trimmed and
/// its spaces are removed, its last five characters, when they are ASCII digits.
pub open spec fn postal_code_from_line(s: Seq<char>) -> Option<Seq<char>> {
    let c = remove_spaces(trim(s));
    if c.len() >= 5 && all_digits(c.subrange(c.len() - 5, c.len() as int)) {
        Some(c.subrange(c.len() - 5, c.len() as int))
    } else {
        None
    }
}

/// The postal code at the end of an address line (`214 46` in
/// `Idunsgatan 67B 214 46`): its last five digits, spaces removed.
pub fn extract_postal_code_from_address(adress: &str) -> (r: Option<String>)
    ensures
        match postal_code_from_line(adress@) {
            Some(c) => r matches Some(s) && s@ == c,
            None => r is None,
        },
{
    let joined = remove_spaces_string(trim_str(adress));
    let n = joined.as_str().unicode_len();
    if n < 5 {
        return None;
    }
    let ghost tail = joined@.subrange(n - 5, n as int);
    let mut i: usize = n - 5;
    while i < n
        invariant
            n == joined@.len(),
            joined@ == remove_spaces(trim(adress@)),
            n >= 5,
            n - 5 <= i <= n,
            tail == joined@.subrange(n - 5, n as int),
            forall|k: int| n - 5 <= k < i ==> '0' <= #[trigger] joined@[k] <= '9',
        decreases n - i,
    {
        let c = joined.as_str().get_char(i);
        if !('0' <= c && c <= '9') {
            proof {
                let k = i - (n - 5);
                assert(tail[k as int] == joined@[i as int]);
                assert(!('0' <= tail[k as int] <= '9'));
                assert(!all_digits(tail));
            }
            return None;
        }
        i = i + 1;
    }
    assert(all_digits(tail)) by {
        assert forall|k: int| 0 <= k < 5 implies '0' <= #[trigger] tail[k] <= '9' by {
            assert(tail[k] == joined@[k + n - 5]);
        }
    }
    let r = String::from_str(joined.as_str().substring_char(n - 5, n));
    Some(r)
}

/// The postal code of a debug row: its `postnummer` when present and not empty,
/// else the one at the end of its address line, else empty.
pub open spec fn debug_postal_code(d: LocalData) -> Seq<char> {
    match d.postnummer {
        Some(p) if p@.len() > 0 => p@,
        _ => match postal_code_from_line(d.adress@) {
            Some(c) => c,
            None => Seq::empty(),
        },
    }
}

/// `m` is what looking up street, number and postal code in `parking` gives.
pub open spec fn looked_up(parking: Seq<DB>, street: Seq<char>, number: Seq<char>, postal: Seq<char>, m: Option<DB>) -> bool {
    if input_error(street, number, postal) is Some {
        m is None
    } else {
        match first_match(parking, street, number, remove_spaces(trim(postal))) {
            Some(i) => m == Some(parking[i]),
            None => m is None,
        }
    }
}

/// `db` is the restriction of debug row `d`, placed in `month` of `year` from its
/// day and its hours without spaces, for the address `street number`, `postal`.
pub open spec fn debug_restriction(
    d: LocalData,
    street: Seq<char>,
    number: Seq<char>,
    postal: Seq<char>,
    year: int,
    month: int,
    db: DB,
) -> bool {
    &&& d.tid matches Some(t) && d.dag matches Some(dag) && {
        let hours = remove_spaces(t@);
        &&& db.wf()
        &&& (if postal.len() == 0 { db.postnummer is None } else { db.postnummer matches Some(p) && p@ == postal })
        &&& db.adress == d.adress
        &&& db.gata matches Some(g) && g@ == street
        &&& db.gatunummer matches Some(n) && n@ == number
        &&& db.info == d.info
        &&& db.taxa == d.taxa
        &&& db.antal_platser == d.antal_platser
        &&& db.typ_av_parkering == d.typ_av_parkering
        &&& db.year == year
        &&& db.month == month
        &&& db.dag == dag
        &&& parse_tid(hours) == Some((db.start_minute as int, db.end_minute as int))
        &&& restriction_window(year, month, dag as int, hours) == Some((db.start_time as int, db.end_time as int))
    }
}

/// `a` is the debug address restored from row `d` under `id`: street and number
/// as in storage, the postal code of `debug_postal_code`, the flags, and the
/// restriction placed in `month` of `year` from the row's day and hours when they
/// make one; otherwise the one found in `parking`.
pub open spec fn is_debug_address(d: LocalData, id: usize, year: int, month: int, parking: Seq<DB>, a: StoredAddress) -> bool {
    let (street, number) = street_split(d);
    let postal = debug_postal_code(d);
    &&& a.id == id
    &&& a.street@ == street
    &&& a.street_number@ == number
    &&& a.postal_code@ == postal
    &&& a.valid == d.valid
    &&& a.active == d.active
    &&& if d.tid is Some && d.dag is Some && restriction_window(
        year,
        month,
        d.dag.unwrap() as int,
        remove_spaces(d.tid.unwrap()@),
    ) is Some {
        a.matched_entry matches Some(db) && debug_restriction(d, street, number, postal, year, month, db)
    } else {
        looked_up(parking, street, number, postal, a.matched_entry)
    }
}

fn look_up(parking: &Vec<DB>, street: &str, number: &str, postal: &str) -> (r: Option<DB>)
    ensures
        looked_up(parking@, street@, number@, postal@, r),
{
    match match_address(parking, street, number, postal) {
        MatchResult::Valid(entry) => Some(*entry),
        MatchResult::Invalid => None,
    }
}

/// Restores a debug address from its row under `id`, placing its restriction in
/// `month` of `year`, or looking it up in `parking`.
pub fn from_local_data(data: &LocalData, id: usize, year: i32, month: u32, parking: &Vec<DB>) -> (r: StoredAddress)
    ensures
        is_debug_address(*data, id, year as int, month as int, parking@, r),
{
    let (street, street_number) = street_parts(data);
    let postal_code = match &data.postnummer {
        Some(pc) => if pc.as_str().unicode_len() > 0 {
            pc.clone()
        } else {
            opt_string(&extract_postal_code_from_address(data.adress.as_str()))
        },
        None => opt_string(&extract_postal_code_from_address(data.adress.as_str())),
    };
    let matched_entry = match (data.dag, &data.tid) {
        (Some(dag), Some(tid)) => {
            let hours = remove_spaces_string(tid.as_str());
            let postnummer = if postal_code.as_str().unicode_len() == 0 {
                None
            } else {
                Some(postal_code.clone())
            };
            match DB::from_dag_tid(
                postnummer,
                data.adress.clone(),
                Some(street.clone()),
                Some(street_number.clone()),
                data.info.clone(),
                dag,
                hours.as_str(),
                data.taxa.clone(),
                data.antal_platser,
                data.typ_av_parkering.clone(),
                year,
                month,
            ) {
                Some(db) => Some(db),
                None => look_up(parking, street.as_str(), street_number.as_str(), postal_code.as_str()),
            }
        },
        _ => look_up(parking, street.as_str(), street_number.as_str(), postal_code.as_str()),
    };
    StoredAddress {
        id,
        street,
        street_number,
        postal_code,
        valid: data.valid,
        active: data.active,
        matched_entry,
    }
}

/// The debug addresses of the rows that hold an address line, in order, each under
/// the index of its row.
pub fn debug_addresses_from_rows(rows: &Vec<LocalData>, year: i32, month: u32, parking: &Vec<DB>) -> (r: Vec<
    StoredAddress,
>)
    ensures
        r@.len() == kept_rows(rows@).len(),
        forall|k: int|
            0 <= k < r@.len() ==> is_debug_address(
                rows@[kept_rows(rows@)[k]],
                kept_rows(rows@)[k] as usize,
                year as int,
                month as int,
                parking@,
                #[trigger] r@[k],
            ),
{
    let mut out: Vec<StoredAddress> = Vec::new();
    let mut i: usize = 0;
    while i < rows.len()
        invariant
            i <= rows@.len(),
            out@.len() == kept_rows(rows@.take(i as int)).len(),
            forall|k: int|
                0 <= k < out@.len() ==> is_debug_address(
                    rows@[kept_rows(rows@.take(i as int))[k]],
                    kept_rows(rows@.take(i as int))[k] as usize,
                    year as int,
                    month as int,
                    parking@,
                    #[trigger] out@[k],
                ),
            forall|k: int|
                0 <= k < kept_rows(rows@.take(i as int)).len() ==> #[trigger] kept_rows(rows@.take(i as int))[k]
                    < i,
        decreases rows@.len() - i,
    {
        proof {
            assert(rows@.take(i + 1).drop_last() =~= rows@.take(i as int));
            assert(rows@.take(i + 1).last() == rows@[i as int]);
        }
        let row = &rows[i];
        if row.adress.unicode_len() > 0 {
            let a = from_local_data(row, i, year, month, parking);
            out.push(a);
        }
        i = i + 1;
    }
    proof {
        assert(rows@.take(rows@.len() as int) =~= rows@);
    }
    out
}

} // verus!
