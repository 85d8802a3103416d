//! Validity of addresses whose restriction falls on a given day of the month:
//! days 29 to 31 do not exist in every month.
use vstd::prelude::*;
use vstd::arithmetic::div_mod::{lemma_fundamental_div_mod, lemma_fundamental_div_mod_converse_mod};
use crate::calendar::{local_date, spec_days_in_month, spec_is_leap};
use crate::ui::StoredAddress;

verus! {

proof fn lemma_divides_neg(x: int, k: int)
    requires
        k > 0,
    ensures
        (x % k == 0) <==> ((-x) % k == 0),
{
    lemma_fundamental_div_mod(x, k);
    lemma_fundamental_div_mod(-x, k);
    if x % k == 0 {
        let q = x / k;
        assert(-x == (-q) * k + 0) by (nonlinear_arith)
            requires x == k * q + 0;
        lemma_fundamental_div_mod_converse_mod(-x, k, -q, 0);
    }
    if (-x) % k == 0 {
        let q = (-x) / k;
        assert(x == (-q) * k + 0) by (nonlinear_arith)
            requires -x == k * q + 0;
        lemma_fundamental_div_mod_converse_mod(x, k, -q, 0);
    }
}

/// Gregorian leap-year rule.
pub fn is_leap_year(year: i32) -> (r: bool)
    ensures
        r == spec_is_leap(year as int),
{
    let magnitude: u64 = if year < 0 { (-(year as i64)) as u64 } else { year as u64 };
    proof {
        lemma_divides_neg(year as int, 4);
        lemma_divides_neg(year as int, 100);
        lemma_divides_neg(year as int, 400);
    }
    (magnitude % 4 == 0 && magnitude % 100 != 0) || magnitude % 400 == 0
}

/// Number of days in `month` (1..=12) of `year`.
pub fn days_in_month(month: u32, year: i32) -> (r: u32)
    requires
        1 <= month <= 12,
    ensures
        r == spec_days_in_month(year as int, month as int),
{
    match month {
        1 | 3 | 5 | 7 | 8 | 10 | 12 => 31,
        4 | 6 | 9 | 11 => 30,
        _ => if is_leap_year(year) {
            29
        } else {
            28
        },
    }
}

/// A restriction on day `dag` of the month takes place in `month` of `year`;
/// without a day there is nothing to rule out.
pub open spec fn valid_in_month(dag: Option<u8>, year: int, month: int) -> bool {
    match dag {
        None => true,
        Some(d) => d <= spec_days_in_month(year, month),
    }
}

/// Days 1 to 28 exist in every month; day 29 in every month but February of a
/// common year; day 30 in every month but February; day 31 only in the months
/// of 31 days.
pub proof fn lemma_validity_rules(d: u8, year: int, month: int)
    requires
        1 <= month <= 12,
    ensures
        d <= 28 ==> valid_in_month(Some(d), year, month),
        d == 29 ==> (valid_in_month(Some(d), year, month) <==> (month != 2 || spec_is_leap(year))),
        d == 30 ==> (valid_in_month(Some(d), year, month) <==> month != 2),
        d == 31 ==> (valid_in_month(Some(d), year, month) <==> spec_days_in_month(year, month) == 31),
        valid_in_month(None, year, month),
{
}

/// Whether a restriction on day `dag` takes place in `month` (1..=12) of `year`.
pub fn is_valid_in_month(dag: Option<u8>, month: u32, year: i32) -> (r: bool)
    requires
        1 <= month <= 12,
    ensures
        r == valid_in_month(dag, year as int, month as int),
{
    match dag {
        None => true,
        Some(d) => (d as u32) <= days_in_month(month, year),
    }
}

/// Whether a restriction on day `dag` takes place in the current month of the
/// machine's local calendar.
pub fn is_valid_in_current_month(dag: Option<u8>) -> (r: bool)
    ensures
        exists|year: int, month: int| 1 <= month <= 12 && r == valid_in_month(dag, year, month),
        dag matches Some(d) && d <= 28 ==> r,
        dag is None ==> r,
{
    let (year, month, _day) = local_date();
    let r = is_valid_in_month(dag, month, year);
    proof {
        lemma_validity_rules(if let Some(d) = dag { d } else { 0 }, year as int, month as int);
    }
    r
}

/// The address after checking its validity for `month` of `year`: an address with
/// a restriction is valid exactly when the restriction's day exists that month;
/// one without keeps its flag.
pub open spec fn revalidated(a: StoredAddress, year: int, month: int) -> StoredAddress {
    match a.matched_entry {
        None => a,
        Some(db) => StoredAddress { valid: valid_in_month(Some(db.dag), year, month), ..a },
    }
}

/// Checking an address for a month sets only its validity: an address with a
/// restriction is valid exactly when the restriction's day exists in that month
/// (days up to 28 always, 29 except in February of a common year, 30 except in
/// February, 31 in January, March, May, July, August, October and December); an
/// address without a restriction is left as it is.
pub proof fn lemma_revalidated_effect(a: StoredAddress, year: int, month: int)
    requires
        1 <= month <= 12,
    ensures
        match a.matched_entry {
            None => revalidated(a, year, month) == a,
            Some(db) => {
                let r = revalidated(a, year, month);
                &&& r.valid <==> {
                    ||| db.dag <= 28
                    ||| db.dag == 29 && (month != 2 || spec_is_leap(year))
                    ||| db.dag == 30 && month != 2
                    ||| db.dag == 31 && (month == 1 || month == 3 || month == 5 || month == 7 || month == 8
                        || month == 10 || month == 12)
                }
                &&& r.id == a.id && r.street == a.street && r.street_number == a.street_number
                &&& r.postal_code == a.postal_code && r.active == a.active && r.matched_entry == a.matched_entry
            },
        },
{
}

/// Checking an address twice for the same month changes nothing the second time.
pub proof fn lemma_revalidation_idempotent(a: StoredAddress, year: int, month: int)
    ensures
        revalidated(revalidated(a, year, month), year, month) == revalidated(a, year, month),
{
}

/// `after` is `before` with every address checked for `month` of `year`, and
/// `changed` tells whether any address changed.
pub open spec fn revalidation(
    before: Seq<StoredAddress>,
    after: Seq<StoredAddress>,
    changed: bool,
    year: int,
    month: int,
) -> bool {
    &&& after.len() == before.len()
    &&& forall|i: int| 0 <= i < before.len() ==> #[trigger] after[i] == revalidated(before[i], year, month)
    &&& changed == exists|i: int|
        0 <= i < before.len() && revalidated(#[trigger] before[i], year, month) != before[i]
}

/// Checking again, for the same month, addresses that were just checked leaves them
/// as they are and reports no change.
pub proof fn lemma_recheck_changes_nothing(
    before: Seq<StoredAddress>,
    after: Seq<StoredAddress>,
    changed: bool,
    year: int,
    month: int,
)
    requires
        revalidation(before, after, changed, year, month),
    ensures
        revalidation(after, after, false, year, month),
{
    assert forall|i: int| 0 <= i < after.len() implies revalidated(#[trigger] after[i], year, month) == after[i] by {
        lemma_revalidation_idempotent(before[i], year, month);
    }
}

/// Sets the `valid` flag of every address with a restriction by whether the
/// restriction's day exists in `month` (1..=12) of `year`; returns whether any flag
/// changed.
pub fn check_and_update_validity_for(addresses: &mut Vec<StoredAddress>, month: u32, year: i32) -> (r: bool)
    requires
        1 <= month <= 12,
    ensures
        revalidation(old(addresses)@, final(addresses)@, r, year as int, month as int),
{
    let ghost original = addresses@;
    let mut changed = false;
    let mut i: usize = 0;
    while i < addresses.len()
        invariant
            1 <= month <= 12,
            i <= addresses@.len(),
            addresses@.len() == original.len(),
            forall|k: int|
                0 <= k < i ==> #[trigger] addresses@[k] == revalidated(original[k], year as int, month as int),
            forall|k: int| i <= k < addresses@.len() ==> #[trigger] addresses@[k] == original[k],
            changed == exists|k: int|
                0 <= k < i && revalidated(#[trigger] original[k], year as int, month as int) != original[k],
        decreases addresses@.len() - i,
    {
        let dag = match &addresses[i].matched_entry {
            Some(entry) => Some(entry.dag),
            None => None,
        };
        let should_be_valid = is_valid_in_month(dag, month, year);
        if dag.is_some() && addresses[i].valid != should_be_valid {
            let mut updated = addresses[i].clone();
            updated.valid = should_be_valid;
            addresses.set(i, updated);
            changed = true;
            proof {
                assert(revalidated(original[i as int], year as int, month as int) != original[i as int]);
            }
        } else {
            proof {
                assert(revalidated(original[i as int], year as int, month as int) == original[i as int]);
            }
        }
        i = i + 1;
    }
    changed
}

/// `check_and_update_validity_for` with the current month of the machine's local
/// calendar.
pub fn check_and_update_validity(addresses: &mut Vec<StoredAddress>) -> (r: bool)
    ensures
        exists|year: int, month: int|
            1 <= month <= 12 && #[trigger] revalidation(old(addresses)@, final(addresses)@, r, year, month),
{
    let (year, month, _day) = local_date();
    check_and_update_validity_for(addresses, month, year)
}

} // verus!
