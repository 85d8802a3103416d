//! The saved addresses and the operations that the screens perform on them.
use vstd::prelude::*;

pub mod panels;
pub mod top_bar;

use crate::components::address_utils::normalize_string;
use crate::components::matching::{first_match, input_error, match_address, MatchResult};
use crate::structs::DB;
use crate::text::{
    edit_distance, lowercase, remove_spaces, remove_spaces_string, str_eq, trim, trim_str, within_three_edits,
};

verus! {

/// An address that the user follows, with the restriction found for it.
#[derive(Debug, PartialEq, Eq)]
pub struct StoredAddress {
    pub id: usize,
    pub street: String,
    pub street_number: String,
    pub postal_code: String,
    pub valid: bool,
    pub active: bool,
    pub matched_entry: Option<DB>,
}

impl Clone for StoredAddress {
    fn clone(&self) -> (r: Self)
        ensures
            r == *self,
    {
        StoredAddress {
            id: self.id,
            street: self.street.clone(),
            street_number: self.street_number.clone(),
            postal_code: self.postal_code.clone(),
            valid: self.valid,
            active: self.active,
            matched_entry: match &self.matched_entry {
                Some(e) => Some(e.clone()),
                None => None,
            },
        }
    }
}

/// Calls `uuid::Uuid::new_v4` and `Uuid::into_bytes`: the 16 bytes of a random
/// UUID. Claimed, as the uuid source sets them: the version nibble of byte 6 is 4
/// and the top bits of byte 8 are `10`; the other bits are random.
#[verifier::external_body]
fn new_uuid_v4_bytes() -> (r: [u8; 16])
    ensures
        0x40 <= r@[6] < 0x50,
        0x80 <= r@[8] < 0xC0,
{
    uuid::Uuid::new_v4().into_bytes()
}

/// The number that the first eight bytes of a UUID make, read little-endian.
pub open spec fn le_u64_of(b: Seq<u8>) -> int {
    b[0] + b[1] * 0x100 + b[2] * 0x1_0000 + b[3] * 0x100_0000 + b[4] * 0x1_0000_0000 + b[5]
        * 0x100_0000_0000 + b[6] * 0x1_0000_0000_0000 + b[7] * 0x100_0000_0000_0000
}

/// Id of an address from the bytes of its UUID: the first eight bytes read as a
/// little-endian number.
pub fn uuid_to_usize(bytes: &[u8; 16]) -> (r: usize)
    ensures
        r == le_u64_of(bytes@) as usize,
{
    let b = bytes;
    let v: u64 = b[0] as u64 + (b[1] as u64) * 0x100 + (b[2] as u64) * 0x1_0000 + (b[3] as u64) * 0x100_0000
        + (b[4] as u64) * 0x1_0000_0000 + (b[5] as u64) * 0x100_0000_0000 + (b[6] as u64)
        * 0x1_0000_0000_0000 + (b[7] as u64) * 0x100_0000_0000_0000;
    v as usize
}

/// Comparison form of a name: trimmed and in lower case.
pub open spec fn norm(s: Seq<char>) -> Seq<char> {
    lowercase(trim(s))
}

/// Comparison form of an optional name; a missing one is empty.
pub open spec fn opt_norm(o: Option<String>) -> Seq<char> {
    match o {
        Some(s) => norm(s@),
        None => Seq::empty(),
    }
}

/// Whether `needle` occurs in `hay`.
pub open spec fn contains_seq(hay: Seq<char>, needle: Seq<char>) -> bool {
    exists|i: int| 0 <= i && i + needle.len() <= hay.len() && #[trigger] hay.subrange(i, i + needle.len()) == needle
}

pub(crate) fn contains_str(hay: &str, needle: &str) -> (r: bool)
    ensures
        r == contains_seq(hay@, needle@),
{
    let h = hay.unicode_len();
    let n = needle.unicode_len();
    if n == 0 {
        assert(hay@.subrange(0int, 0int + needle@.len()) =~= needle@);
        return true;
    }
    if n > h {
        return false;
    }
    let mut i: usize = 0;
    while i <= h - n
        invariant
            h == hay@.len(),
            n == needle@.len(),
            1 <= n <= h,
            i <= h - n + 1,
            forall|k: int| 0 <= k < i ==> #[trigger] hay@.subrange(k, k + n) != needle@,
        decreases h - n + 1 - i,
    {
        if str_eq(hay.substring_char(i, i + n), needle) {
            return true;
        }
        i = i + 1;
    }
    false
}

/// An entry of the restriction data matches an address loosely: same number and
/// postal code once normalised, and street names equal, within three edits of each
/// other (Levenshtein distance), or one inside the other.
pub open spec fn fuzzy_matches(e: DB, street: Seq<char>, number: Seq<char>, postal: Seq<char>) -> bool {
    let sn = norm(street);
    let es = opt_norm(e.gata);
    let ep = match e.postnummer {
        Some(p) => remove_spaces(p@),
        None => Seq::empty(),
    };
    &&& (sn == es || edit_distance(sn, es) <= 3 || contains_seq(es, sn) || contains_seq(sn, es))
    &&& opt_norm(e.gatunummer) == norm(number)
    &&& ep == remove_spaces(trim(postal))
}

/// Index of the first entry that matches the address loosely.
pub open spec fn first_fuzzy(data: Seq<DB>, street: Seq<char>, number: Seq<char>, postal: Seq<char>) -> Option<int>
    decreases data.len(),
{
    if data.len() == 0 {
        None
    } else {
        match first_fuzzy(data.drop_last(), street, number, postal) {
            Some(i) => Some(i),
            None => if fuzzy_matches(data.last(), street, number, postal) {
                Some(data.len() - 1)
            } else {
                None
            },
        }
    }
}

/// The entry found for an address: the exact match when the input is valid and
/// one exists, else the first loose match.
pub open spec fn fuzzy_result(data: Seq<DB>, street: Seq<char>, number: Seq<char>, postal: Seq<char>) -> Option<DB> {
    let exact = if input_error(street, number, postal) is None {
        first_match(data, street, number, remove_spaces(trim(postal)))
    } else {
        None
    };
    match exact {
        Some(i) => Some(data[i]),
        None => match first_fuzzy(data, street, number, postal) {
            Some(i) => Some(data[i]),
            None => None,
        },
    }
}

fn opt_normalized(o: &Option<String>) -> (r: String)
    ensures
        r@ == opt_norm(*o),
{
    match o {
        Some(s) => normalize_string(s.as_str()),
        None => String::new(),
    }
}

/// Finds the restriction of an address in `data`, tolerating case, surrounding
/// white space, spaces in the postal code, up to three typing errors in the street
/// name and partial street names.
pub fn fuzzy_match_address(data: &Vec<DB>, street: &str, street_number: &str, postal_code: &str) -> (r: Option<DB>)
    ensures
        r == fuzzy_result(data@, street@, street_number@, postal_code@),
{
    match match_address(data, street, street_number, postal_code) {
        MatchResult::Valid(entry) => return Some(*entry),
        MatchResult::Invalid => {},
    }
    let street_norm = normalize_string(street);
    let number_norm = normalize_string(street_number);
    let postal_norm = remove_spaces_string(trim_str(postal_code));
    let mut i: usize = 0;
    while i < data.len()
        invariant
            i <= data@.len(),
            street_norm@ == norm(street@),
            number_norm@ == norm(street_number@),
            postal_norm@ == remove_spaces(trim(postal_code@)),
            input_error(street@, street_number@, postal_code@) is None ==> first_match(
                data@,
                street@,
                street_number@,
                remove_spaces(trim(postal_code@)),
            ) is None,
            first_fuzzy(data@.take(i as int), street@, street_number@, postal_code@) is None,
        decreases data@.len() - i,
    {
        let ghost prefix = data@.take(i + 1);
        proof {
            assert(prefix.drop_last() =~= data@.take(i as int));
            assert(prefix.last() == data@[i as int]);
        }
        let e = &data[i];
        let entry_street = opt_normalized(&e.gata);
        let entry_number = opt_normalized(&e.gatunummer);
        let entry_postal = match &e.postnummer {
            Some(p) => remove_spaces_string(p.as_str()),
            None => String::new(),
        };
        let street_match = str_eq(street_norm.as_str(), entry_street.as_str()) || within_three_edits(
            street_norm.as_str(),
            entry_street.as_str(),
        ) || contains_str(
            entry_street.as_str(),
            street_norm.as_str(),
        ) || contains_str(street_norm.as_str(), entry_street.as_str());
        if street_match && str_eq(entry_number.as_str(), number_norm.as_str()) && str_eq(
            entry_postal.as_str(),
            postal_norm.as_str(),
        ) {
            proof {
                lemma_first_fuzzy_found(data@, street@, street_number@, postal_code@, i as int);
            }
            return Some(e.clone());
        }
        i = i + 1;
    }
    proof {
        assert(data@.take(data@.len() as int) =~= data@);
    }
    None
}

proof fn lemma_first_fuzzy_found(data: Seq<DB>, street: Seq<char>, number: Seq<char>, postal: Seq<char>, i: int)
    requires
        0 <= i < data.len(),
        first_fuzzy(data.take(i), street, number, postal) is None,
        fuzzy_matches(data[i], street, number, postal),
    ensures
        first_fuzzy(data, street, number, postal) == Some(i),
    decreases data.len(),
{
    if data.len() > i + 1 {
        let t = data.drop_last();
        assert(t.take(i) =~= data.take(i));
        assert(t[i] == data[i]);
        lemma_first_fuzzy_found(t, street, number, postal, i);
    } else {
        assert(data.drop_last() =~= data.take(i));
    }
}

impl StoredAddress {
    /// A new followed address with a random id, active, valid exactly when its
    /// restriction is found in `data` by `fuzzy_match_address`.
    pub fn new(street: String, street_number: String, postal_code: String, data: &Vec<DB>) -> (r: StoredAddress)
        ensures
            r.street == street,
            r.street_number == street_number,
            r.postal_code == postal_code,
            r.matched_entry == fuzzy_result(data@, street@, street_number@, postal_code@),
            r.valid == r.matched_entry is Some,
            r.active,
            exists|b: Seq<u8>| b.len() == 16 && r.id == le_u64_of(b) as usize,
    {
        let matched_entry = fuzzy_match_address(data, street.as_str(), street_number.as_str(), postal_code.as_str());
        let valid = matched_entry.is_some();
        let bytes = new_uuid_v4_bytes();
        let id = uuid_to_usize(&bytes);
        assert(bytes@.len() == 16 && id == le_u64_of(bytes@) as usize);
        StoredAddress { id, street, street_number, postal_code, valid, active: true, matched_entry }
    }
}

/// Two addresses name the same place: street and number equal once trimmed and in
/// lower case, postal codes equal once trimmed and without spaces.
pub open spec fn same_address(a: StoredAddress, b: StoredAddress) -> bool {
    &&& norm(a.street@) == norm(b.street@)
    &&& norm(a.street_number@) == norm(b.street_number@)
    &&& remove_spaces(trim(a.postal_code@)) == remove_spaces(trim(b.postal_code@))
}

/// Whether `addrs` already hold the place of `new_addr`.
pub fn is_duplicate(addrs: &Vec<StoredAddress>, new_addr: &StoredAddress) -> (r: bool)
    ensures
        r == exists|i: int| 0 <= i < addrs@.len() && same_address(#[trigger] addrs@[i], *new_addr),
{
    let street = normalize_string(new_addr.street.as_str());
    let number = normalize_string(new_addr.street_number.as_str());
    let postal = remove_spaces_string(trim_str(new_addr.postal_code.as_str()));
    let mut i: usize = 0;
    while i < addrs.len()
        invariant
            i <= addrs@.len(),
            street@ == norm(new_addr.street@),
            number@ == norm(new_addr.street_number@),
            postal@ == remove_spaces(trim(new_addr.postal_code@)),
            forall|k: int| 0 <= k < i ==> !same_address(#[trigger] addrs@[k], *new_addr),
        decreases addrs@.len() - i,
    {
        let a = &addrs[i];
        let s = normalize_string(a.street.as_str());
        let n = normalize_string(a.street_number.as_str());
        let p = remove_spaces_string(trim_str(a.postal_code.as_str()));
        if str_eq(s.as_str(), street.as_str()) && str_eq(n.as_str(), number.as_str()) && str_eq(
            p.as_str(),
            postal.as_str(),
        ) {
            return true;
        }
        i = i + 1;
    }
    false
}

/// Adds `new_addr` unless debug mode is on (the list is then read-only) or the
/// place is already followed; returns whether it was added.
pub fn add_address(addrs: &mut Vec<StoredAddress>, new_addr: StoredAddress, debug_mode: bool) -> (r: bool)
    ensures
        r == (!debug_mode && !exists|i: int|
            0 <= i < old(addrs)@.len() && same_address(#[trigger] old(addrs)@[i], new_addr)),
        r ==> final(addrs)@ == old(addrs)@.push(new_addr),
        !r ==> final(addrs)@ == old(addrs)@,
        !debug_mode && (forall|i: int|
            0 <= i < old(addrs)@.len() ==> norm((#[trigger] old(addrs)@[i]).street_number@) != norm(
                new_addr.street_number@,
            )) ==> r,
{
    proof {
        if forall|i: int|
            0 <= i < addrs@.len() ==> norm((#[trigger] addrs@[i]).street_number@) != norm(new_addr.street_number@) {
            lemma_new_number_is_added(addrs@, new_addr);
        }
    }
    if debug_mode {
        return false;
    }
    if is_duplicate(addrs, &new_addr) {
        return false;
    }
    addrs.push(new_addr);
    true
}

/// Index of the first address with id `id`.
pub open spec fn first_with_id(s: Seq<StoredAddress>, id: usize) -> Option<int>
    decreases s.len(),
{
    if s.len() == 0 {
        None
    } else {
        match first_with_id(s.drop_last(), id) {
            Some(i) => Some(i),
            None => if s.last().id == id { Some(s.len() - 1) } else { None },
        }
    }
}

fn position_of(addrs: &Vec<StoredAddress>, id: usize) -> (r: Option<usize>)
    ensures
        r matches Some(k) ==> k < addrs@.len() && first_with_id(addrs@, id) == Some(k as int),
        r is None ==> first_with_id(addrs@, id) is None,
{
    let mut i: usize = 0;
    while i < addrs.len()
        invariant
            i <= addrs@.len(),
            first_with_id(addrs@.take(i as int), id) is None,
        decreases addrs@.len() - i,
    {
        proof {
            assert(addrs@.take(i + 1).drop_last() =~= addrs@.take(i as int));
            assert(addrs@.take(i + 1).last() == addrs@[i as int]);
        }
        if addrs[i].id == id {
            proof {
                lemma_first_with_id_found(addrs@, id, i as int);
            }
            return Some(i);
        }
        i = i + 1;
    }
    proof {
        assert(addrs@.take(addrs@.len() as int) =~= addrs@);
    }
    None
}

proof fn lemma_first_with_id_found(s: Seq<StoredAddress>, id: usize, i: int)
    requires
        0 <= i < s.len(),
        first_with_id(s.take(i), id) is None,
        s[i].id == id,
    ensures
        first_with_id(s, id) == Some(i),
    decreases s.len(),
{
    if s.len() > i + 1 {
        let t = s.drop_last();
        assert(t.take(i) =~= s.take(i));
        assert(t[i] == s[i]);
        lemma_first_with_id_found(t, id, i);
    } else {
        assert(s.drop_last() =~= s.take(i));
    }
}

/// `a` with its active flag switched.
pub open spec fn toggled(a: StoredAddress) -> StoredAddress {
    StoredAddress { active: !a.active, ..a }
}

/// Switching an address flips its active flag and keeps everything else.
pub proof fn lemma_toggle_flips_active(a: StoredAddress)
    ensures
        toggled(a).active == !a.active,
        toggled(a).id == a.id,
        toggled(a).street == a.street,
        toggled(a).street_number == a.street_number,
        toggled(a).postal_code == a.postal_code,
        toggled(a).valid == a.valid,
        toggled(a).matched_entry == a.matched_entry,
{
}

/// The address operated on is the first one with the id: it has the id, no
/// earlier one has it, and when none is found no address has it.
pub proof fn lemma_first_with_id_is_first(s: Seq<StoredAddress>, id: usize)
    ensures
        match first_with_id(s, id) {
            Some(i) => 0 <= i < s.len() && s[i].id == id && forall|j: int| 0 <= j < i ==> (#[trigger] s[j]).id != id,
            None => forall|j: int| 0 <= j < s.len() ==> (#[trigger] s[j]).id != id,
        },
    decreases s.len(),
{
    if s.len() > 0 {
        let d = s.drop_last();
        lemma_first_with_id_is_first(d, id);
        assert forall|j: int| 0 <= j < d.len() implies d[j] == s[j] by {}
    }
}

/// Switches the active flag of the first address with id `id`; returns its
/// position, or nothing when no address has that id.
pub fn toggle_active(addrs: &mut Vec<StoredAddress>, id: usize) -> (r: Option<usize>)
    ensures
        match first_with_id(old(addrs)@, id) {
            Some(i) => r == Some(i as usize) && final(addrs)@ == old(addrs)@.update(i, toggled(old(addrs)@[i])),
            None => r is None && final(addrs)@ == old(addrs)@,
        },
{
    match position_of(addrs, id) {
        Some(i) => {
            let mut a = addrs[i].clone();
            a.active = !a.active;
            addrs.set(i, a);
            Some(i)
        },
        None => None,
    }
}

/// Removes the first address with id `id` unless debug mode is on (the list is
/// then read-only); returns the removed address.
pub fn remove_address(addrs: &mut Vec<StoredAddress>, id: usize, debug_mode: bool) -> (r: Option<StoredAddress>)
    ensures
        debug_mode ==> r is None && final(addrs)@ == old(addrs)@,
        !debug_mode ==> match first_with_id(old(addrs)@, id) {
            Some(i) => r == Some(old(addrs)@[i]) && final(addrs)@ == old(addrs)@.remove(i),
            None => r is None && final(addrs)@ == old(addrs)@,
        },
{
    if debug_mode {
        return None;
    }
    match position_of(addrs, id) {
        Some(i) => Some(addrs.remove(i)),
        None => None,
    }
}

/// Switching an address twice gives it back unchanged.
pub proof fn lemma_toggle_twice(a: StoredAddress)
    ensures
        toggled(toggled(a)) == a,
{
}

/// Two addresses are duplicates only when street, number and postal code all agree
/// (street and number trimmed and in lower case, postal codes trimmed and without
/// spaces): a different number, street or postal code is a different address,
/// while an address is a duplicate of itself.
pub proof fn lemma_duplicate_needs_all_fields(a: StoredAddress, b: StoredAddress)
    ensures
        norm(a.street@) != norm(b.street@) ==> !same_address(a, b),
        norm(a.street_number@) != norm(b.street_number@) ==> !same_address(a, b),
        remove_spaces(trim(a.postal_code@)) != remove_spaces(trim(b.postal_code@)) ==> !same_address(a, b),
        a.street@ == b.street@ && a.street_number@ == b.street_number@ && a.postal_code@ == b.postal_code@
            ==> same_address(a, b),
{
}

/// Adding an address whose number differs from the number of every followed
/// address (after trimming and lower case) is never refused as a duplicate: outside
/// debug mode it is added.
pub proof fn lemma_new_number_is_added(addrs: Seq<StoredAddress>, new_addr: StoredAddress)
    requires
        forall|i: int| 0 <= i < addrs.len() ==> norm((#[trigger] addrs[i]).street_number@) != norm(
            new_addr.street_number@,
        ),
    ensures
        !exists|i: int| 0 <= i < addrs.len() && same_address(#[trigger] addrs[i], new_addr),
{
    assert forall|i: int| 0 <= i < addrs.len() implies !same_address(#[trigger] addrs[i], new_addr) by {
        lemma_duplicate_needs_all_fields(addrs[i], new_addr);
    }
}

/// An address just added is a duplicate of the list it went into, so adding it
/// again is refused.
pub proof fn lemma_added_is_duplicate(addrs: Seq<StoredAddress>, a: StoredAddress)
    ensures
        exists|i: int| 0 <= i < addrs.push(a).len() && same_address(#[trigger] addrs.push(a)[i], a),
{
    assert(same_address(addrs.push(a)[addrs.len() as int], a));
}

} // verus!
