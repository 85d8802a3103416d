//! The persisted form of the followed addresses: one row per address, with the
//! day and hours of its restriction, and the restoring of addresses from rows.
//! Reading and writing the files is left to the caller.
use vstd::prelude::*;
use crate::components::matching::{first_match, input_error, match_address, MatchResult};
use crate::structs::{is_digit, digit_value, parse_tid, restriction_window, DBParams, LocalData, DB};
use crate::text::{
    decimal, decimal2, digit_char, join_path, joined_path, remove_spaces, trim, trim_str, u64_to_string2,
};
use crate::ui::StoredAddress;

verus! {

/// `HHMM-HHMM` of a time range given in minutes after midnight.
pub open spec fn tid_text(start_minute: nat, end_minute: nat) -> Seq<char> {
    decimal2(start_minute / 60) + decimal2(start_minute % 60) + seq!['-'] + decimal2(end_minute / 60)
        + decimal2(end_minute % 60)
}

/// Text of a string option; nothing reads as the empty text.
pub open spec fn opt_text(o: Option<String>) -> Seq<char> {
    match o {
        Some(s) => s@,
        None => Seq::empty(),
    }
}

/// The one-line address `street number`, without surrounding white space.
pub open spec fn address_line(street: Seq<char>, number: Seq<char>) -> Seq<char> {
    trim(street + seq![' '] + number)
}

proof fn lemma_decimal2_digits(n: nat)
    requires
        n < 100,
    ensures
        decimal2(n).len() == 2,
        is_digit(decimal2(n)[0]) && is_digit(decimal2(n)[1]),
        digit_value(decimal2(n)[0]) * 10 + digit_value(decimal2(n)[1]) == n,
{
    reveal_with_fuel(decimal, 2);
    if n >= 10 {
        assert(decimal(n) == decimal(n / 10).push(digit_char(n % 10)));
        assert(decimal(n / 10) == seq![digit_char(n / 10)]);
    }
}

/// The text of a time range reads back as that range.
pub proof fn lemma_tid_text_parses(start_minute: nat, end_minute: nat)
    requires
        start_minute < end_minute < 1440,
    ensures
        parse_tid(tid_text(start_minute, end_minute)) == Some((start_minute as int, end_minute as int)),
{
    let a = decimal2(start_minute / 60);
    let b = decimal2(start_minute % 60);
    let c = decimal2(end_minute / 60);
    let d = decimal2(end_minute % 60);
    lemma_decimal2_digits(start_minute / 60);
    lemma_decimal2_digits(start_minute % 60);
    lemma_decimal2_digits(end_minute / 60);
    lemma_decimal2_digits(end_minute % 60);
    let s = tid_text(start_minute, end_minute);
    assert(s =~= seq![a[0], a[1], b[0], b[1], '-', c[0], c[1], d[0], d[1]]);
}

/// Writes `HHMM-HHMM` for a time range in minutes after midnight.
fn tid_string(start_minute: u32, end_minute: u32) -> (r: String)
    ensures
        r@ == tid_text(start_minute as nat, end_minute as nat),
{
    let mut s = u64_to_string2((start_minute / 60) as u64);
    let sm = u64_to_string2((start_minute % 60) as u64);
    s.append(sm.as_str());
    s.append("-");
    let eh = u64_to_string2((end_minute / 60) as u64);
    s.append(eh.as_str());
    let em = u64_to_string2((end_minute % 60) as u64);
    s.append(em.as_str());
    proof {
        reveal_strlit("-");
    }
    s
}

/// `d` is the persisted row of `a`: its address fields, and the day, hours and
/// details of its restriction when it has one.
#[verifier::opaque]
pub open spec fn is_local_data_of(d: LocalData, a: StoredAddress) -> bool {
    &&& d.valid == a.valid
    &&& d.active == a.active
    &&& d.postnummer matches Some(p) && p@ == a.postal_code@
    &&& d.adress@ == address_line(a.street@, a.street_number@)
    &&& d.gata matches Some(g) && g@ == a.street@
    &&& d.gatunummer matches Some(n) && n@ == a.street_number@
    &&& match a.matched_entry {
        Some(db) => {
            &&& d.dag == Some(db.dag)
            &&& d.tid matches Some(t) && t@ == tid_text(db.start_minute as nat, db.end_minute as nat)
            &&& d.info == db.info
            &&& d.taxa == db.taxa
            &&& d.antal_platser == db.antal_platser
            &&& d.typ_av_parkering == db.typ_av_parkering
        },
        None => {
            &&& d.dag is None
            &&& d.tid is None
            &&& d.info is None
            &&& d.taxa is None
            &&& d.antal_platser is None
            &&& d.typ_av_parkering is None
        },
    }
}

/// The persisted row of an address.
pub fn to_local_data(addr: &StoredAddress) -> (r: LocalData)
    ensures
        is_local_data_of(r, *addr),
{
    let mut line = addr.street.clone();
    line.append(" ");
    line.append(addr.street_number.as_str());
    proof {
        reveal_strlit(" ");
    }
    let adress = trim_str(line.as_str()).to_string();
    proof {
        reveal(is_local_data_of);
    }
    assert(line@ == addr.street@ + seq![' '] + addr.street_number@);
    assert(adress@ == address_line(addr.street@, addr.street_number@));
    let pc = addr.postal_code.clone();
    assert(pc@ == addr.postal_code@);
    match &addr.matched_entry {
        Some(entry) => LocalData {
            valid: addr.valid,
            active: addr.active,
            postnummer: Some(addr.postal_code.clone()),
            adress,
            gata: Some(addr.street.clone()),
            gatunummer: Some(addr.street_number.clone()),
            info: entry.info.clone(),
            tid: Some(tid_string(entry.start_minute, entry.end_minute)),
            dag: Some(entry.dag),
            taxa: entry.taxa.clone(),
            antal_platser: entry.antal_platser,
            typ_av_parkering: entry.typ_av_parkering.clone(),
        },
        None => LocalData {
            valid: addr.valid,
            active: addr.active,
            postnummer: Some(addr.postal_code.clone()),
            adress,
            gata: Some(addr.street.clone()),
            gatunummer: Some(addr.street_number.clone()),
            info: None,
            tid: None,
            dag: None,
            taxa: None,
            antal_platser: None,
            typ_av_parkering: None,
        },
    }
}

/// Index of the last space of `s`, or -1.
pub open spec fn last_space(s: Seq<char>) -> int
    decreases s.len(),
{
    if s.len() == 0 {
        -1
    } else if s.last() == ' ' {
        s.len() - 1
    } else {
        last_space(s.drop_last())
    }
}

proof fn lemma_last_space(s: Seq<char>, j: int)
    requires
        0 <= j <= s.len(),
        forall|k: int| j <= k < s.len() ==> #[trigger] s[k] != ' ',
        j == 0 || s[j - 1] == ' ',
    ensures
        last_space(s) == j - 1,
    decreases s.len(),
{
    if s.len() > j {
        let t = s.drop_last();
        assert forall|k: int| j <= k < t.len() implies #[trigger] t[k] != ' ' by {
            assert(t[k] == s[k]);
        }
        if j > 0 {
            assert(t[j - 1] == s[j - 1]);
        }
        assert(s.last() == s[s.len() - 1]);
        lemma_last_space(t, j);
    }
}

/// Street and number of a row: the `gata` and `gatunummer` fields when `gata` is
/// there, else the address line split at its last space (all of it is the street
/// when it has none).
pub open spec fn street_split(d: LocalData) -> (Seq<char>, Seq<char>) {
    match d.gata {
        Some(g) => (g@, opt_text(d.gatunummer)),
        None => {
            let s = d.adress@;
            let k = last_space(s);
            if k >= 0 {
                (s.subrange(0, k), s.subrange(k + 1, s.len() as int))
            } else {
                (s, Seq::empty())
            }
        },
    }
}

pub(crate) fn opt_string(o: &Option<String>) -> (r: String)
    ensures
        r@ == opt_text(*o),
{
    match o {
        Some(s) => s.clone(),
        None => String::new(),
    }
}

fn split_at_last_space(s: &str) -> (r: (String, String))
    ensures
        last_space(s@) >= 0 ==> r.0@ == s@.subrange(0, last_space(s@)) && r.1@ == s@.subrange(
            last_space(s@) + 1,
            s@.len() as int,
        ),
        last_space(s@) < 0 ==> r.0@ == s@ && r.1@ == Seq::<char>::empty(),
{
    let n = s.unicode_len();
    let mut i: usize = n;
    while i > 0 && s.get_char(i - 1) != ' '
        invariant
            n == s@.len(),
            i <= n,
            forall|k: int| i <= k < n ==> #[trigger] s@[k] != ' ',
        decreases i,
    {
        i = i - 1;
    }
    proof {
        lemma_last_space(s@, i as int);
    }
    if i == 0 {
        (s.to_string(), String::new())
    } else {
        (s.substring_char(0, i - 1).to_string(), s.substring_char(i, n).to_string())
    }
}

pub(crate) fn street_parts(data: &LocalData) -> (r: (String, String))
    ensures
        (r.0@, r.1@) == street_split(*data),
{
    match &data.gata {
        Some(g) => (g.clone(), opt_string(&data.gatunummer)),
        None => split_at_last_space(data.adress.as_str()),
    }
}

/// `db` is the restriction rebuilt from the day and hours of row `d`, placed in
/// `month` of `year`, for the address `street number`.
pub open spec fn restored_restriction(
    d: LocalData,
    street: Seq<char>,
    number: Seq<char>,
    year: int,
    month: int,
    db: DB,
) -> bool {
    &&& d.tid matches Some(t) && d.dag matches Some(dag) && {
        &&& db.wf()
        &&& db.postnummer == d.postnummer
        &&& db.adress@ == street + seq![' '] + number
        &&& db.gata matches Some(g) && g@ == street
        &&& db.gatunummer matches Some(n) && n@ == number
        &&& db.info == d.info
        &&& db.taxa == d.taxa
        &&& db.antal_platser == d.antal_platser
        &&& db.typ_av_parkering == d.typ_av_parkering
        &&& db.year == year
        &&& db.month == month
        &&& db.dag == dag
        &&& parse_tid(t@) == Some((db.start_minute as int, db.end_minute as int))
        &&& restriction_window(year, month, dag as int, t@) == Some((db.start_time as int, db.end_time as int))
    }
}

/// `a` is the address restored from row `d` under `id`: street and number by
/// `street_split`, the postal code (empty when missing), the flags, and its
/// restriction: rebuilt in `month` of `year` from the row's day and hours when the
/// row has both; otherwise, for a valid row, looked up again in `parking`; none
/// for an invalid row.
#[verifier::opaque]
pub open spec fn is_restored_address(
    d: LocalData,
    id: usize,
    year: int,
    month: int,
    parking: Seq<DB>,
    a: StoredAddress,
) -> bool {
    let (street, number) = street_split(d);
    let postal = opt_text(d.postnummer);
    &&& a.id == id
    &&& a.street@ == street
    &&& a.street_number@ == number
    &&& a.postal_code@ == postal
    &&& a.valid == d.valid
    &&& a.active == d.active
    &&& if d.tid is Some && d.dag is Some {
        match a.matched_entry {
            Some(db) => restored_restriction(d, street, number, year, month, db),
            None => restriction_window(year, month, d.dag.unwrap() as int, d.tid.unwrap()@) is None,
        }
    } else if d.valid {
        if input_error(street, number, postal) is Some {
            a.matched_entry is None
        } else {
            match first_match(parking, street, number, remove_spaces(trim(postal))) {
                Some(i) => a.matched_entry == Some(parking[i]),
                None => a.matched_entry is None,
            }
        }
    } else {
        a.matched_entry is None
    }
}

/// Restores the address of a persisted row under `id`; a restriction saved with
/// the row is placed in `month` of `year`, and a valid row saved without one is
/// looked up again in `parking`.
pub fn from_local_data(data: &LocalData, id: usize, year: i32, month: u32, parking: &Vec<DB>) -> (r: StoredAddress)
    ensures
        is_restored_address(*data, id, year as int, month as int, parking@, r),
{
    proof {
        reveal(is_restored_address);
    }
    let (street, street_number) = street_parts(data);
    let postal_code = opt_string(&data.postnummer);
    let matched_entry = match (&data.tid, data.dag) {
        (Some(tid), Some(dag)) => {
            let mut adress = street.clone();
            adress.append(" ");
            adress.append(street_number.as_str());
            proof {
                reveal_strlit(" ");
            }
            let rebuilt = DB::from_params(
                DBParams {
                    postnummer: data.postnummer.clone(),
                    adress,
                    gata: Some(street.clone()),
                    gatunummer: Some(street_number.clone()),
                    info: data.info.clone(),
                    dag,
                    tid: tid.clone(),
                    taxa: data.taxa.clone(),
                    antal_platser: data.antal_platser,
                    typ_av_parkering: data.typ_av_parkering.clone(),
                    year,
                    month,
                },
            );
            assert(adress@ == street@ + seq![' '] + street_number@);
            assert(rebuilt matches Some(db) ==> parse_tid(data.tid.unwrap()@) == Some((db.start_minute as int, db.end_minute as int)));
            assert(rebuilt matches Some(db) ==> restored_restriction(*data, street@, street_number@, year as int, month as int, db));
            assert(rebuilt is None ==> restriction_window(year as int, month as int, dag as int, tid@) is None);
            rebuilt
        },
        _ => if data.valid {
            match match_address(parking, street.as_str(), street_number.as_str(), postal_code.as_str()) {
                MatchResult::Valid(entry) => Some(*entry),
                MatchResult::Invalid => None,
            }
        } else {
            None
        },
    };
    StoredAddress {
        id,
        street,
        street_number,
        postal_code,
        valid: data.valid,
        active: data.active,
        matched_entry,
    }
}

/// The row written when there is no address, so that a file is never empty; it is
/// dropped when reading.
pub open spec fn is_placeholder_row(d: LocalData) -> bool {
    &&& !d.valid
    &&& !d.active
    &&& d.postnummer is None
    &&& d.adress@.len() == 0
    &&& d.gata is None
    &&& d.gatunummer is None
    &&& d.info is None
    &&& d.tid is None
    &&& d.dag is None
    &&& d.taxa is None
    &&& d.antal_platser is None
    &&& d.typ_av_parkering is None
}

/// `rows` are what is written for `addrs`: their rows in order, or the placeholder
/// row alone when there is no address.
pub open spec fn saved_rows(addrs: Seq<StoredAddress>, rows: Seq<LocalData>) -> bool {
    if addrs.len() == 0 {
        rows.len() == 1 && is_placeholder_row(rows[0])
    } else {
        &&& rows.len() == addrs.len()
        &&& forall|i: int| 0 <= i < addrs.len() ==> is_local_data_of(#[trigger] rows[i], addrs[i])
    }
}

/// The rows to write for the followed addresses.
pub fn rows_for_saving(addresses: &Vec<StoredAddress>) -> (r: Vec<LocalData>)
    ensures
        saved_rows(addresses@, r@),
{
    let mut rows: Vec<LocalData> = Vec::new();
    if addresses.len() == 0 {
        rows.push(
            LocalData {
                valid: false,
                active: false,
                postnummer: None,
                adress: String::new(),
                gata: None,
                gatunummer: None,
                info: None,
                tid: None,
                dag: None,
                taxa: None,
                antal_platser: None,
                typ_av_parkering: None,
            },
        );
        return rows;
    }
    let mut i: usize = 0;
    while i < addresses.len()
        invariant
            i <= addresses@.len(),
            rows@.len() == i,
            forall|k: int| 0 <= k < i ==> is_local_data_of(#[trigger] rows@[k], addresses@[k]),
        decreases addresses@.len() - i,
    {
        rows.push(to_local_data(&addresses[i]));
        i = i + 1;
    }
    rows
}

/// Indices of the rows that hold an address (a non-empty address line).
pub open spec fn kept_rows(rows: Seq<LocalData>) -> Seq<int>
    decreases rows.len(),
{
    if rows.len() == 0 {
        Seq::empty()
    } else {
        let p = kept_rows(rows.drop_last());
        if rows.last().adress@.len() > 0 { p.push(rows.len() - 1) } else { p }
    }
}

proof fn lemma_kept_rows_bounds(rows: Seq<LocalData>)
    ensures
        forall|k: int|
            0 <= k < kept_rows(rows).len() ==> 0 <= #[trigger] kept_rows(rows)[k] < rows.len() && rows[kept_rows(
                rows,
            )[k]].adress@.len() > 0,
    decreases rows.len(),
{
    if rows.len() > 0 {
        let t = rows.drop_last();
        lemma_kept_rows_bounds(t);
        assert forall|k: int| 0 <= k < kept_rows(t).len() implies rows[kept_rows(t)[k]] == t[kept_rows(t)[k]] by {}
    }
}

/// `loaded` are the addresses restored from `rows`: one for each row that holds an
/// address, in order, under the index of its row.
pub open spec fn loaded_addresses(
    rows: Seq<LocalData>,
    year: int,
    month: int,
    parking: Seq<DB>,
    loaded: Seq<StoredAddress>,
) -> bool {
    let kept = kept_rows(rows);
    &&& loaded.len() == kept.len()
    &&& forall|k: int|
        0 <= k < loaded.len() ==> is_restored_address(
            rows[kept[k]],
            kept[k] as usize,
            year,
            month,
            parking,
            #[trigger] loaded[k],
        )
}

/// Restores the followed addresses from persisted rows; rows without an address
/// line (the placeholder) are dropped, and each address gets the index of its row.
pub fn addresses_from_rows(rows: &Vec<LocalData>, year: i32, month: u32, parking: &Vec<DB>) -> (r: Vec<
    StoredAddress,
>)
    ensures
        loaded_addresses(rows@, year as int, month as int, parking@, r@),
{
    let mut out: Vec<StoredAddress> = Vec::new();
    let mut i: usize = 0;
    while i < rows.len()
        invariant
            i <= rows@.len(),
            loaded_addresses(rows@.take(i as int), year as int, month as int, parking@, out@),
        decreases rows@.len() - i,
    {
        let ghost before = rows@.take(i as int);
        let ghost after = rows@.take(i + 1);
        proof {
            assert(after.drop_last() =~= before);
            assert(after.last() == rows@[i as int]);
            lemma_kept_rows_bounds(before);
            assert forall|k: int| 0 <= k < kept_rows(before).len() implies after[kept_rows(before)[k]]
                == before[kept_rows(before)[k]] by {}
        }
        let row = &rows[i];
        if row.adress.unicode_len() > 0 {
            let a = from_local_data(row, i, year, month, parking);
            out.push(a);
        }
        i = i + 1;
    }
    proof {
        assert(rows@.take(rows@.len() as int) =~= rows@);
    }
    out
}

/// Number of addresses held by persisted rows.
pub fn count_stored_addresses(rows: &Vec<LocalData>) -> (r: usize)
    ensures
        r == kept_rows(rows@).len(),
{
    let mut n: usize = 0;
    let mut i: usize = 0;
    while i < rows.len()
        invariant
            i <= rows@.len(),
            n == kept_rows(rows@.take(i as int)).len(),
            n <= i,
        decreases rows@.len() - i,
    {
        proof {
            assert(rows@.take(i + 1).drop_last() =~= rows@.take(i as int));
            assert(rows@.take(i + 1).last() == rows@[i as int]);
        }
        if rows[i].adress.unicode_len() > 0 {
            n = n + 1;
        }
        i = i + 1;
    }
    proof {
        assert(rows@.take(rows@.len() as int) =~= rows@);
    }
    n
}

proof fn lemma_row_fields(
    a: StoredAddress,
    d: LocalData,
    id: usize,
    year: int,
    month: int,
    parking: Seq<DB>,
    r: StoredAddress,
)
    requires
        is_local_data_of(d, a),
        is_restored_address(d, id, year, month, parking, r),
    ensures
        r.id == id,
        r.street@ == a.street@,
        r.street_number@ == a.street_number@,
        r.postal_code@ == a.postal_code@,
        r.valid == a.valid,
        r.active == a.active,
{
    reveal(is_restored_address);
    reveal(is_local_data_of);
}

/// What becomes of the restriction of `a` in its restored form `r`, read in `month`
/// of `year`: a well-formed restriction comes back with the same day, hours and
/// details, placed in that month, exactly when that day and those hours exist in
/// it; an invalid address saved without one comes back without.
pub open spec fn restriction_restored(a: StoredAddress, r: StoredAddress, year: int, month: int) -> bool {
    match a.matched_entry {
        Some(db) => db.wf() ==> match r.matched_entry {
            Some(rdb) => {
                &&& rdb.dag == db.dag
                &&& rdb.start_minute == db.start_minute
                &&& rdb.end_minute == db.end_minute
                &&& rdb.info == db.info
                &&& rdb.taxa == db.taxa
                &&& rdb.antal_platser == db.antal_platser
                &&& rdb.typ_av_parkering == db.typ_av_parkering
                &&& rdb.gata matches Some(g) && g@ == a.street@
                &&& rdb.gatunummer matches Some(n) && n@ == a.street_number@
                &&& rdb.year == year && rdb.month == month
            },
            None => restriction_window(
                year,
                month,
                db.dag as int,
                tid_text(db.start_minute as nat, db.end_minute as nat),
            ) is None,
        },
        None => !a.valid ==> r.matched_entry is None,
    }
}

/// Saving an address and restoring it keeps its street, number, postal code and
/// flags. A restriction saved with it comes back, placed in the month of reading,
/// with the same day, hours and details exactly when that day and those hours
/// exist in that month; an invalid address saved without one comes back without.
pub proof fn lemma_row_roundtrip(
    a: StoredAddress,
    d: LocalData,
    id: usize,
    year: int,
    month: int,
    parking: Seq<DB>,
    r: StoredAddress,
)
    requires
        is_local_data_of(d, a),
        is_restored_address(d, id, year, month, parking, r),
    ensures
        r.id == id,
        r.street@ == a.street@,
        r.street_number@ == a.street_number@,
        r.postal_code@ == a.postal_code@,
        r.valid == a.valid,
        r.active == a.active,
        restriction_restored(a, r, year, month),
{
    reveal(is_restored_address);
    reveal(is_local_data_of);
    if let Some(db) = a.matched_entry {
        if db.wf() {
            lemma_tid_text_parses(db.start_minute as nat, db.end_minute as nat);
        }
    }
}

proof fn lemma_all_rows_kept(rows: Seq<LocalData>)
    requires
        forall|i: int| 0 <= i < rows.len() ==> (#[trigger] rows[i]).adress@.len() > 0,
    ensures
        kept_rows(rows).len() == rows.len(),
        forall|k: int| 0 <= k < rows.len() ==> #[trigger] kept_rows(rows)[k] == k,
    decreases rows.len(),
{
    if rows.len() > 0 {
        let t = rows.drop_last();
        assert forall|i: int| 0 <= i < t.len() implies (#[trigger] t[i]).adress@.len() > 0 by {
            assert(t[i] == rows[i]);
        }
        lemma_all_rows_kept(t);
        assert(rows.last() == rows[rows.len() - 1]);
    }
}

/// Writing the followed addresses and reading the rows back gives the same
/// addresses in the same order (each under its position), with the same street,
/// number, postal code and flags, and each restriction back as
/// `restriction_restored` says, provided each has a non-blank address line;
/// writing none reads back none.
pub proof fn lemma_save_then_load(
    addrs: Seq<StoredAddress>,
    rows: Seq<LocalData>,
    year: int,
    month: int,
    parking: Seq<DB>,
    loaded: Seq<StoredAddress>,
)
    requires
        addrs.len() <= usize::MAX,
        saved_rows(addrs, rows),
        loaded_addresses(rows, year, month, parking, loaded),
        forall|i: int|
            0 <= i < addrs.len() ==> address_line((#[trigger] addrs[i]).street@, addrs[i].street_number@).len() > 0,
    ensures
        loaded.len() == addrs.len(),
        forall|i: int|
            0 <= i < addrs.len() ==> {
                &&& (#[trigger] loaded[i]).id == i
                &&& loaded[i].street@ == addrs[i].street@
                &&& loaded[i].street_number@ == addrs[i].street_number@
                &&& loaded[i].postal_code@ == addrs[i].postal_code@
                &&& loaded[i].valid == addrs[i].valid
                &&& loaded[i].active == addrs[i].active
                &&& restriction_restored(addrs[i], loaded[i], year, month)
            },
{
    if addrs.len() == 0 {
        lemma_save_none(rows, year, month, parking, loaded);
    } else {
        assert forall|i: int| 0 <= i < rows.len() implies (#[trigger] rows[i]).adress@.len() > 0 by {
            assert(is_local_data_of(rows[i], addrs[i]));
            reveal(is_local_data_of);
        }
        lemma_all_rows_kept(rows);
        assert forall|i: int| 0 <= i < addrs.len() implies {
            &&& (#[trigger] loaded[i]).id == i
            &&& loaded[i].street@ == addrs[i].street@
            &&& loaded[i].street_number@ == addrs[i].street_number@
            &&& loaded[i].postal_code@ == addrs[i].postal_code@
            &&& loaded[i].valid == addrs[i].valid
            &&& loaded[i].active == addrs[i].active
            &&& restriction_restored(addrs[i], loaded[i], year, month)
        } by {
            lemma_loaded_at(addrs[i], rows, year, month, parking, loaded, i);
        }
    }
}

proof fn lemma_loaded_at(
    a: StoredAddress,
    rows: Seq<LocalData>,
    year: int,
    month: int,
    parking: Seq<DB>,
    loaded: Seq<StoredAddress>,
    i: int,
)
    requires
        0 <= i < rows.len(),
        i <= usize::MAX,
        i < kept_rows(rows).len(),
        kept_rows(rows)[i] == i,
        is_local_data_of(rows[i], a),
        loaded_addresses(rows, year, month, parking, loaded),
    ensures
        loaded[i].id == i,
        loaded[i].street@ == a.street@,
        loaded[i].street_number@ == a.street_number@,
        loaded[i].postal_code@ == a.postal_code@,
        loaded[i].valid == a.valid,
        loaded[i].active == a.active,
        restriction_restored(a, loaded[i], year, month),
{
    assert(is_restored_address(rows[i], i as usize, year, month, parking, loaded[i]));
    lemma_row_fields(a, rows[i], i as usize, year, month, parking, loaded[i]);
    lemma_row_roundtrip(a, rows[i], i as usize, year, month, parking, loaded[i]);
}

proof fn lemma_save_none(rows: Seq<LocalData>, year: int, month: int, parking: Seq<DB>, loaded: Seq<StoredAddress>)
    requires
        rows.len() == 1,
        is_placeholder_row(rows[0]),
        loaded_addresses(rows, year, month, parking, loaded),
    ensures
        loaded.len() == 0,
{
    assert(rows.drop_last() =~= Seq::<LocalData>::empty());
    assert(rows.last() == rows[0]);
    assert(kept_rows(rows.drop_last()) == Seq::<int>::empty());
    assert(kept_rows(rows).len() == 0);
}

/// What to do so that both the main file and its backup exist.
#[derive(Clone, Copy, Debug, PartialEq, Eq, Structural)]
pub enum StorageRepair {
    /// Neither exists: write the placeholder row to both.
    CreateBoth,
    /// Only the backup exists: copy it to the main file.
    RestoreFromBackup,
    /// Only the main file exists: copy it to the backup.
    BackupFromMain,
    /// Both exist.
    Nothing,
}

/// The repair that makes both files exist, given which of them exist.
pub fn storage_repair(main_exists: bool, backup_exists: bool) -> (r: StorageRepair)
    ensures
        r == (if !main_exists && !backup_exists {
            StorageRepair::CreateBoth
        } else if !main_exists {
            StorageRepair::RestoreFromBackup
        } else if !backup_exists {
            StorageRepair::BackupFromMain
        } else {
            StorageRepair::Nothing
        }),
{
    if !main_exists && !backup_exists {
        StorageRepair::CreateBoth
    } else if !main_exists {
        StorageRepair::RestoreFromBackup
    } else if !backup_exists {
        StorageRepair::BackupFromMain
    } else {
        StorageRepair::Nothing
    }
}

/// Path of the address file in the app's storage directory.
pub fn get_local_parquet_path(storage_dir: &str) -> (r: String)
    ensures
        r@ == joined_path(storage_dir@, "local.parquet"@),
{
    join_path(storage_dir, "local.parquet")
}

/// Path of the backup of the address file in the app's storage directory.
pub fn get_backup_parquet_path(storage_dir: &str) -> (r: String)
    ensures
        r@ == joined_path(storage_dir@, "local.parquet.backup"@),
{
    join_path(storage_dir, "local.parquet.backup")
}

} // verus!
