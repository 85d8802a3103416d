//! Address input validation and lookup of an address in the restriction data.
use vstd::prelude::*;
use vstd::utf8::encode_utf8;
use crate::structs::DB;
use crate::text::{
    all_digits, decimal, remove_spaces, remove_spaces_string, str_eq, trim, trim_str,
    u64_to_string,
};

verus! {

/// Validation errors for address input.
#[derive(Debug, Clone, PartialEq, Eq)]
pub enum ValidationError {
    /// Street name is empty or white space only.
    EmptyStreet,
    /// Street number is empty or white space only.
    EmptyStreetNumber,
    /// Postal code is empty or white space only.
    EmptyPostalCode,
    /// Postal code is not 5 digits, optionally written with a space after the
    /// third; holds the input.
    InvalidPostalCodeFormat(String),
    /// Street name longer than 100 bytes; holds its length.
    StreetTooLong(usize),
    /// Street number longer than 20 bytes; holds its length.
    StreetNumberTooLong(usize),
}

/// Maximum length for street names, in bytes.
pub const MAX_STREET_LENGTH: usize = 100;

/// Maximum length for street numbers, in bytes.
pub const MAX_STREET_NUMBER_LENGTH: usize = 20;

/// Message of a validation error.
pub open spec fn error_message(e: ValidationError) -> Seq<char> {
    match e {
        ValidationError::EmptyStreet => "Street name cannot be empty"@,
        ValidationError::EmptyStreetNumber => "Street number cannot be empty"@,
        ValidationError::EmptyPostalCode => "Postal code cannot be empty"@,
        ValidationError::InvalidPostalCodeFormat(code) => "Invalid Swedish postal code format '"@
            + code@ + "' (expected 5 digits like '22100' or '221 00')"@,
        ValidationError::StreetTooLong(len) => "Street name too long ("@ + decimal(len as nat)
            + " characters, maximum is 100)"@,
        ValidationError::StreetNumberTooLong(len) => "Street number too long ("@ + decimal(
            len as nat,
        ) + " characters, maximum is 20)"@,
    }
}

impl ValidationError {
    /// The error's message.
    pub fn to_string(&self) -> (r: String)
        ensures
            r@ == error_message(*self),
    {
        match self {
            ValidationError::EmptyStreet => String::from_str("Street name cannot be empty"),
            ValidationError::EmptyStreetNumber => String::from_str("Street number cannot be empty"),
            ValidationError::EmptyPostalCode => String::from_str("Postal code cannot be empty"),
            ValidationError::InvalidPostalCodeFormat(code) => {
                let mut s = String::from_str("Invalid Swedish postal code format '");
                s.append(code.as_str());
                s.append("' (expected 5 digits like '22100' or '221 00')");
                s
            },
            ValidationError::StreetTooLong(len) => {
                let mut s = String::from_str("Street name too long (");
                let n = u64_to_string(*len as u64);
                s.append(n.as_str());
                s.append(" characters, maximum is 100)");
                s
            },
            ValidationError::StreetNumberTooLong(len) => {
                let mut s = String::from_str("Street number too long (");
                let n = u64_to_string(*len as u64);
                s.append(n.as_str());
                s.append(" characters, maximum is 20)");
                s
            },
        }
    }
}

/// Result of an address lookup.
#[derive(Debug, Clone)]
pub enum MatchResult {
    /// Address found, with its restriction.
    Valid(Box<DB>),
    /// Validation failed or the address is not in the data.
    Invalid,
}

/// A Swedish postal code, once surrounding white space is removed: five ASCII
/// digits (`22100`), or three digits, one space and two digits (`221 00`).
pub open spec fn postal_code_ok(s: Seq<char>) -> bool {
    let t = trim(s);
    ||| t.len() == 5 && all_digits(t)
    ||| t.len() == 6 && t[3] == ' ' && all_digits(t.subrange(0, 3)) && all_digits(t.subrange(4, 6))
}

/// Validates a Swedish postal code: 5 digits, optionally written `XXX XX`.
pub fn validate_postal_code(postal_code: &str) -> (r: Result<(), ValidationError>)
    ensures
        r is Ok <==> postal_code_ok(postal_code@),
        r matches Err(e) ==> (e matches ValidationError::InvalidPostalCodeFormat(c) && c@
            == postal_code@),
{
    let t = trim_str(postal_code);
    let n = t.unicode_len();
    let mut ok = n == 5 || (n == 6 && t.get_char(3) == ' ');
    if ok {
        let mut i: usize = 0;
        while i < n
            invariant
                n == t@.len(),
                n == 5 || n == 6,
                i <= n,
                ok == (forall|k: int| 0 <= k < i && !(n == 6 && k == 3) ==> '0' <= #[trigger] t@[k] <= '9'),
            decreases n - i,
        {
            if !(n == 6 && i == 3) {
                let c = t.get_char(i);
                if !('0' <= c && c <= '9') {
                    ok = false;
                }
            }
            i = i + 1;
        }
        proof {
            if n == 6 {
                if ok {
                    assert(all_digits(t@.subrange(0, 3))) by {
                        assert forall|k: int| 0 <= k < 3 implies '0' <= #[trigger] t@.subrange(0, 3)[k] <= '9' by {
                            assert(t@.subrange(0, 3)[k] == t@[k]);
                        }
                    }
                    assert(all_digits(t@.subrange(4, 6))) by {
                        assert forall|k: int| 0 <= k < 2 implies '0' <= #[trigger] t@.subrange(4, 6)[k] <= '9' by {
                            assert(t@.subrange(4, 6)[k] == t@[k + 4]);
                        }
                    }
                } else {
                    let k = choose|k: int| 0 <= k < n && !(n == 6 && k == 3) && !('0' <= #[trigger] t@[k] <= '9');
                    if k < 3 {
                        assert(t@.subrange(0, 3)[k] == t@[k]);
                    } else {
                        assert(t@.subrange(4, 6)[k - 4] == t@[k]);
                    }
                }
            }
        }
    }
    if ok {
        Ok(())
    } else {
        Err(ValidationError::InvalidPostalCodeFormat(String::from_str(postal_code)))
    }
}

/// Length in bytes of the UTF-8 encoding, as `str::len` reports it.
pub open spec fn byte_len(s: Seq<char>) -> usize {
    encode_utf8(s).len() as usize
}

/// Outcome of validating address input: the first failing check, in the order
/// empty street, empty number, empty postal code, street length, number length,
/// postal code format.
pub open spec fn input_error(street: Seq<char>, number: Seq<char>, postal: Seq<char>) -> Option<
    ValidationError,
> {
    if trim(street).len() == 0 {
        Some(ValidationError::EmptyStreet)
    } else if trim(number).len() == 0 {
        Some(ValidationError::EmptyStreetNumber)
    } else if trim(postal).len() == 0 {
        Some(ValidationError::EmptyPostalCode)
    } else if byte_len(trim(street)) > 100 {
        Some(ValidationError::StreetTooLong(byte_len(trim(street))))
    } else if byte_len(trim(number)) > 20 {
        Some(ValidationError::StreetNumberTooLong(byte_len(trim(number))))
    } else if !postal_code_ok(postal) {
        Some(ValidationError::InvalidPostalCodeFormat(arbitrary()))
    } else {
        None
    }
}

/// Validates address input fields.
pub fn validate_input(street: &str, street_number: &str, postal_code: &str) -> (r: Result<
    (),
    ValidationError,
>)
    ensures
        r is Ok <==> input_error(street@, street_number@, postal_code@) is None,
        r matches Err(e) ==> match e {
            ValidationError::InvalidPostalCodeFormat(c) => input_error(
                street@,
                street_number@,
                postal_code@,
            ) matches Some(ValidationError::InvalidPostalCodeFormat(_)) && c@ == postal_code@,
            _ => input_error(street@, street_number@, postal_code@) == Some(e),
        },
{
    let street_t = trim_str(street);
    let number_t = trim_str(street_number);
    let postal_t = trim_str(postal_code);
    if street_t.is_empty() {
        return Err(ValidationError::EmptyStreet);
    }
    if number_t.is_empty() {
        return Err(ValidationError::EmptyStreetNumber);
    }
    if postal_t.is_empty() {
        return Err(ValidationError::EmptyPostalCode);
    }
    if street_t.len() > MAX_STREET_LENGTH {
        return Err(ValidationError::StreetTooLong(street_t.len()));
    }
    if number_t.len() > MAX_STREET_NUMBER_LENGTH {
        return Err(ValidationError::StreetNumberTooLong(number_t.len()));
    }
    validate_postal_code(postal_code)
}

/// Whether `e` is the restriction recorded for street, number and postal code.
pub open spec fn entry_matches(e: DB, street: Seq<char>, number: Seq<char>, postal: Seq<char>) -> bool {
    &&& e.gata matches Some(g) && g@ == street
    &&& e.gatunummer matches Some(n) && n@ == number
    &&& e.postnummer matches Some(p) && p@ == postal
}

/// Index of the first entry of `data` recorded for the address.
pub open spec fn first_match(data: Seq<DB>, street: Seq<char>, number: Seq<char>, postal: Seq<char>) -> Option<int>
    decreases data.len(),
{
    if data.len() == 0 {
        None
    } else {
        match first_match(data.drop_last(), street, number, postal) {
            Some(i) => Some(i),
            None => if entry_matches(data.last(), street, number, postal) {
                Some(data.len() - 1)
            } else {
                None
            },
        }
    }
}

proof fn lemma_first_match_prefix(data: Seq<DB>, street: Seq<char>, number: Seq<char>, postal: Seq<char>, i: int)
    requires
        0 <= i < data.len(),
        first_match(data.subrange(0, i), street, number, postal) is None,
    ensures
        first_match(data.subrange(0, i + 1), street, number, postal) == (if entry_matches(data[i], street, number, postal) {
            Some(i)
        } else {
            None
        }),
{
    assert(data.subrange(0, i + 1).drop_last() =~= data.subrange(0, i));
}

fn opt_str_eq(a: &Option<String>, b: &str) -> (r: bool)
    ensures
        r == (a matches Some(s) && s@ == b@),
{
    match a {
        Some(s) => str_eq(s.as_str(), b),
        None => false,
    }
}

/// Finds the restriction recorded for an exact street, number and postal code.
pub fn find_address(data: &Vec<DB>, street: &str, street_number: &str, postal_code: &str) -> (r: Option<usize>)
    ensures
        r matches Some(i) ==> first_match(data@, street@, street_number@, postal_code@) == Some(
            i as int,
        ) && i < data@.len(),
        r is None ==> first_match(data@, street@, street_number@, postal_code@) is None,
{
    let mut i: usize = 0;
    while i < data.len()
        invariant
            i <= data@.len(),
            first_match(data@.subrange(0, i as int), street@, street_number@, postal_code@) is None,
        decreases data@.len() - i,
    {
        proof {
            lemma_first_match_prefix(data@, street@, street_number@, postal_code@, i as int);
        }
        let e = &data[i];
        if opt_str_eq(&e.gata, street) && opt_str_eq(&e.gatunummer, street_number) && opt_str_eq(
            &e.postnummer,
            postal_code,
        ) {
            proof {
                assert(data@.subrange(0, i + 1) =~= data@.subrange(0, i + 1));
                lemma_first_match_extend(data@, street@, street_number@, postal_code@, i as int);
            }
            return Some(i);
        }
        i = i + 1;
    }
    assert(data@.subrange(0, data@.len() as int) =~= data@);
    None
}

/// A match found in a prefix is the match of the whole sequence.
proof fn lemma_first_match_extend(data: Seq<DB>, street: Seq<char>, number: Seq<char>, postal: Seq<char>, i: int)
    requires
        0 <= i < data.len(),
        first_match(data.subrange(0, i + 1), street, number, postal) == Some(i),
    ensures
        first_match(data, street, number, postal) == Some(i),
    decreases data.len(),
{
    if data.len() > i + 1 {
        assert(data.drop_last().subrange(0, i + 1) =~= data.subrange(0, i + 1));
        lemma_first_match_extend(data.drop_last(), street, number, postal, i);
    } else {
        assert(data.subrange(0, i + 1) =~= data);
    }
}

/// The lookup finds the first entry whose street, number and postal code are
/// recorded and equal to the ones asked for: the entry found has them, no earlier
/// entry has them, and when nothing is found no entry has them.
pub proof fn lemma_first_match_is_first(data: Seq<DB>, street: Seq<char>, number: Seq<char>, postal: Seq<char>)
    ensures
        match first_match(data, street, number, postal) {
            Some(i) => {
                &&& 0 <= i < data.len()
                &&& data[i].gata matches Some(g) && g@ == street
                &&& data[i].gatunummer matches Some(n) && n@ == number
                &&& data[i].postnummer matches Some(p) && p@ == postal
                &&& forall|j: int|
                    0 <= j < i ==> !{
                        &&& (#[trigger] data[j]).gata matches Some(g) && g@ == street
                        &&& data[j].gatunummer matches Some(n) && n@ == number
                        &&& data[j].postnummer matches Some(p) && p@ == postal
                    }
            },
            None => forall|j: int|
                0 <= j < data.len() ==> !{
                    &&& (#[trigger] data[j]).gata matches Some(g) && g@ == street
                    &&& data[j].gatunummer matches Some(n) && n@ == number
                    &&& data[j].postnummer matches Some(p) && p@ == postal
                },
        },
    decreases data.len(),
{
    if data.len() > 0 {
        let d = data.drop_last();
        lemma_first_match_is_first(d, street, number, postal);
        assert forall|j: int| 0 <= j < d.len() implies d[j] == data[j] by {}
    }
}

/// Looks up an address in the restriction data after validating the input; the
/// postal code is compared without surrounding white space and spaces.
pub fn match_address(data: &Vec<DB>, street: &str, street_number: &str, postal_code: &str) -> (r: MatchResult)
    ensures
        input_error(street@, street_number@, postal_code@) is Some ==> r is Invalid,
        input_error(street@, street_number@, postal_code@) is None ==> match first_match(
            data@,
            street@,
            street_number@,
            remove_spaces(trim(postal_code@)),
        ) {
            Some(i) => r matches MatchResult::Valid(b) && *b == data@[i],
            None => r is Invalid,
        },
{
    if validate_input(street, street_number, postal_code).is_err() {
        return MatchResult::Invalid;
    }
    let postal_normalized = remove_spaces_string(trim_str(postal_code));
    match find_address(data, street, street_number, postal_normalized.as_str()) {
        Some(i) => MatchResult::Valid(Box::new(data[i].clone())),
        None => MatchResult::Invalid,
    }
}

} // verus!
