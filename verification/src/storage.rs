//! Address store of the preference-based backend, and the JSON text of the
//! followed addresses, written and read back. The backend holds no addresses yet:
//! reading gives none and writing succeeds without keeping anything.
use vstd::prelude::*;
use crate::ui::StoredAddress;

verus! {

/// JSON escape of one character: backslash, quote, newline, carriage return and
/// tab get a backslash; other characters stay as they are.
pub open spec fn escape_char(c: char) -> Seq<char> {
    if c == '\\' {
        seq!['\\', '\\']
    } else if c == '"' {
        seq!['\\', '"']
    } else if c == '\n' {
        seq!['\\', 'n']
    } else if c == '\r' {
        seq!['\\', 'r']
    } else if c == '\t' {
        seq!['\\', 't']
    } else {
        seq![c]
    }
}

/// `s` with each character escaped for a JSON string.
pub open spec fn escaped(s: Seq<char>) -> Seq<char>
    decreases s.len(),
{
    if s.len() == 0 {
        Seq::empty()
    } else {
        escaped(s.drop_last()) + escape_char(s.last())
    }
}

/// The character that a JSON escape letter stands for (`n`, `r`, `t`; a quote or
/// backslash stands for itself).
pub open spec fn unescape_letter(c: char) -> char {
    if c == 'n' {
        '\n'
    } else if c == 'r' {
        '\r'
    } else if c == 't' {
        '\t'
    } else {
        c
    }
}

/// Reading the body of a JSON string back: each backslash and the character after
/// it stand for one character.
pub open spec fn json_unescape(t: Seq<char>) -> Seq<char>
    decreases t.len(),
{
    if t.len() == 0 {
        Seq::empty()
    } else if t[0] == '\\' && t.len() >= 2 {
        seq![unescape_letter(t[1])] + json_unescape(t.skip(2))
    } else {
        seq![t[0]] + json_unescape(t.skip(1))
    }
}

/// A JSON string body as the escape writes it: no bare quote, newline, carriage
/// return or tab, and each backslash followed by one of `\ " n r t`.
pub open spec fn json_body_ok(t: Seq<char>) -> bool
    decreases t.len(),
{
    if t.len() == 0 {
        true
    } else if t[0] == '\\' {
        &&& t.len() >= 2
        &&& (t[1] == '\\' || t[1] == '"' || t[1] == 'n' || t[1] == 'r' || t[1] == 't')
        &&& json_body_ok(t.skip(2))
    } else {
        &&& t[0] != '"'
        &&& t[0] != '\n'
        &&& t[0] != '\r'
        &&& t[0] != '\t'
        &&& json_body_ok(t.skip(1))
    }
}

/// A character that the escape changes.
pub open spec fn needs_escape(c: char) -> bool {
    c == '\\' || c == '"' || c == '\n' || c == '\r' || c == '\t'
}

proof fn lemma_escaped_front(s: Seq<char>)
    requires
        s.len() > 0,
    ensures
        escaped(s) == escape_char(s[0]) + escaped(s.drop_first()),
    decreases s.len(),
{
    if s.len() == 1 {
        assert(s.drop_last() =~= Seq::<char>::empty());
        assert(s.drop_first() =~= Seq::<char>::empty());
        assert(escape_char(s[0]) + Seq::<char>::empty() =~= escape_char(s[0]));
    } else {
        let d = s.drop_last();
        lemma_escaped_front(d);
        assert(d[0] == s[0]);
        assert(s.drop_first().drop_last() =~= d.drop_first());
        assert(s.drop_first().last() == s.last());
        assert(escaped(s) =~= escape_char(s[0]) + escaped(s.drop_first()));
    }
}

/// The escape of a string is a JSON string body (no bare quote, newline, carriage
/// return or tab, every backslash starting an escape), reading it back gives the
/// string, and a string without backslash, quote, newline, carriage return or tab
/// is left as it is.
pub proof fn lemma_escape_json_laws(s: Seq<char>)
    ensures
        json_body_ok(escaped(s)),
        json_unescape(escaped(s)) == s,
        forall|i: int| 0 <= i < escaped(s).len() ==> #[trigger] escaped(s)[i] != '\n' && escaped(s)[i] != '\r'
            && escaped(s)[i] != '\t',
        (forall|i: int| 0 <= i < s.len() ==> !needs_escape(#[trigger] s[i])) ==> escaped(s) == s,
    decreases s.len(),
{
    if s.len() == 0 {
        assert(escaped(s) =~= Seq::<char>::empty());
        assert(s =~= Seq::<char>::empty());
    } else {
        let rest = s.drop_first();
        lemma_escape_json_laws(rest);
        lemma_escaped_front(s);
        let c = s[0];
        let e = escape_char(c);
        let r = escaped(rest);
        let t = e + r;
        assert(escaped(s) == t);
        if needs_escape(c) {
            assert(t.skip(2) =~= r);
            assert(t[0] == '\\');
        } else {
            assert(t.skip(1) =~= r);
            assert(t[0] == c);
        }
        assert(json_unescape(t) =~= s);
        assert forall|i: int| 0 <= i < t.len() implies #[trigger] t[i] != '\n' && t[i] != '\r' && t[i] != '\t' by {
            if i >= e.len() {
                assert(t[i] == r[i - e.len()]);
            }
        }
        if forall|i: int| 0 <= i < s.len() ==> !needs_escape(#[trigger] s[i]) {
            assert forall|i: int| 0 <= i < rest.len() implies !needs_escape(#[trigger] rest[i]) by {
                assert(rest[i] == s[i + 1]);
            }
            assert(!needs_escape(s[0]));
            assert(t =~= s);
        }
    }
}

/// Escapes backslashes, quotes, newlines, carriage returns and tabs for a JSON
/// string.
pub fn escape_json(s: &str) -> (r: String)
    ensures
        r@ == escaped(s@),
{
    let n = s.unicode_len();
    let mut out = String::new();
    let mut i: usize = 0;
    while i < n
        invariant
            n == s@.len(),
            i <= n,
            out@ == escaped(s@.take(i as int)),
        decreases n - i,
    {
        let c = s.get_char(i);
        proof {
            assert(s@.take(i + 1).drop_last() =~= s@.take(i as int));
            assert(s@.take(i + 1).last() == c);
            reveal_strlit("\\\\");
            reveal_strlit("\\\"");
            reveal_strlit("\\n");
            reveal_strlit("\\r");
            reveal_strlit("\\t");
        }
        if c == '\\' {
            out.append("\\\\");
        } else if c == '"' {
            out.append("\\\"");
        } else if c == '\n' {
            out.append("\\n");
        } else if c == '\r' {
            out.append("\\r");
        } else if c == '\t' {
            out.append("\\t");
        } else {
            let one = s.substring_char(i, i + 1);
            assert(one@ =~= seq![c]);
            out.append(one);
        }
        i = i + 1;
    }
    proof {
        assert(s@.take(n as int) =~= s@);
    }
    out
}

/// JSON object of an address: street, number, postal code and the active flag.
pub open spec fn address_json(a: StoredAddress) -> Seq<char> {
    "{\"street\":\""@ + escaped(a.street@) + "\",\"street_number\":\""@ + escaped(a.street_number@)
        + "\",\"postal_code\":\""@ + escaped(a.postal_code@) + "\",\"active\":"@ + (if a.active {
        "true"@
    } else {
        "false"@
    }) + "}"@
}

/// The objects of the addresses, separated by commas.
pub open spec fn json_items(s: Seq<StoredAddress>) -> Seq<char>
    decreases s.len(),
{
    if s.len() == 0 {
        Seq::empty()
    } else if s.len() == 1 {
        address_json(s[0])
    } else {
        json_items(s.drop_last()) + ","@ + address_json(s.last())
    }
}

/// JSON array of the addresses.
pub open spec fn addresses_json(s: Seq<StoredAddress>) -> Seq<char> {
    "["@ + json_items(s) + "]"@
}

fn write_address_json(out: &mut String, a: &StoredAddress)
    ensures
        final(out)@ == old(out)@ + address_json(*a),
{
    out.append("{\"street\":\"");
    let street = escape_json(a.street.as_str());
    out.append(street.as_str());
    out.append("\",\"street_number\":\"");
    let number = escape_json(a.street_number.as_str());
    out.append(number.as_str());
    out.append("\",\"postal_code\":\"");
    let postal = escape_json(a.postal_code.as_str());
    out.append(postal.as_str());
    out.append("\",\"active\":");
    if a.active {
        out.append("true");
    } else {
        out.append("false");
    }
    out.append("}");
    assert(out@ =~= old(out)@ + address_json(*a));
}

/// JSON array of the followed addresses (street, number, postal code, active);
/// always succeeds.
pub fn serialize_addresses(addresses: &Vec<StoredAddress>) -> (r: Result<String, String>)
    ensures
        r matches Ok(json) && json@ == addresses_json(addresses@),
{
    let mut json = String::from_str("[");
    let mut i: usize = 0;
    while i < addresses.len()
        invariant
            i <= addresses@.len(),
            json@ == "["@ + json_items(addresses@.take(i as int)),
        decreases addresses@.len() - i,
    {
        let ghost before = json@;
        proof {
            let t = addresses@.take(i + 1);
            assert(t.drop_last() =~= addresses@.take(i as int));
            assert(t.last() == addresses@[i as int]);
            if i == 0 {
                assert(t[0] == addresses@[0]);
            }
        }
        if i > 0 {
            json.append(",");
        }
        write_address_json(&mut json, &addresses[i]);
        proof {
            if i == 0 {
                assert(json_items(addresses@.take(0)) == Seq::<char>::empty());
                assert(json@ =~= "["@ + json_items(addresses@.take(1)));
            } else {
                assert(json@ =~= "["@ + json_items(addresses@.take(i + 1)));
            }
        }
        i = i + 1;
    }
    json.append("]");
    proof {
        assert(addresses@.take(addresses@.len() as int) =~= addresses@);
    }
    Ok(json)
}

/// The fields that the JSON text of an address holds: street, number, postal
/// code and the active flag.
pub open spec fn fields_of(a: StoredAddress) -> (Seq<char>, Seq<char>, Seq<char>, bool) {
    (a.street@, a.street_number@, a.postal_code@, a.active)
}

/// The letters that may follow a backslash in a string that the escape writes.
pub open spec fn is_escape_letter(c: char) -> bool {
    c == '\\' || c == '"' || c == 'n' || c == 'r' || c == 't'
}

/// Reads the body of a JSON string, up to and including its closing quote: the
/// text it stands for and what follows the quote.
pub open spec fn parse_string_body(t: Seq<char>) -> Option<(Seq<char>, Seq<char>)>
    decreases t.len(),
{
    if t.len() == 0 {
        None
    } else if t[0] == '"' {
        Some((Seq::empty(), t.skip(1)))
    } else if t[0] == '\\' {
        if t.len() >= 2 && is_escape_letter(t[1]) {
            match parse_string_body(t.skip(2)) {
                Some((c, r)) => Some((seq![unescape_letter(t[1])] + c, r)),
                None => None,
            }
        } else {
            None
        }
    } else {
        match parse_string_body(t.skip(1)) {
            Some((c, r)) => Some((seq![t[0]] + c, r)),
            None => None,
        }
    }
}

/// What follows `lit` at the start of `t`, if `t` starts with it.
pub open spec fn after_literal(t: Seq<char>, lit: Seq<char>) -> Option<Seq<char>> {
    if lit.len() <= t.len() && t.take(lit.len() as int) == lit {
        Some(t.skip(lit.len() as int))
    } else {
        None
    }
}

/// Reads the JSON object of an address, as `address_json` writes it, at the start
/// of `t`: its fields and what follows the object.
#[verifier::opaque]
pub open spec fn parse_address_object(t: Seq<char>) -> Option<((Seq<char>, Seq<char>, Seq<char>, bool), Seq<char>)> {
    match after_literal(t, "{\"street\":\""@) {
        None => None,
        Some(t1) => match parse_string_body(t1) {
            None => None,
            Some((street, t2)) => match after_literal(t2, ",\"street_number\":\""@) {
                None => None,
                Some(t3) => match parse_string_body(t3) {
                    None => None,
                    Some((number, t4)) => match after_literal(t4, ",\"postal_code\":\""@) {
                        None => None,
                        Some(t5) => match parse_string_body(t5) {
                            None => None,
                            Some((postal, t6)) => match after_literal(t6, ",\"active\":"@) {
                                None => None,
                                Some(t7) => match after_literal(t7, "true}"@) {
                                    Some(t8) => Some(((street, number, postal, true), t8)),
                                    None => match after_literal(t7, "false}"@) {
                                        Some(t8) => Some(((street, number, postal, false), t8)),
                                        None => None,
                                    },
                                },
                            },
                        },
                    },
                },
            },
        },
    }
}

/// Reading a string body consumes at least its closing quote.
pub proof fn lemma_string_body_shorter(t: Seq<char>)
    ensures
        parse_string_body(t) matches Some((c, r)) ==> r.len() < t.len(),
    decreases t.len(),
{
    if t.len() >= 2 && t[0] == '\\' {
        lemma_string_body_shorter(t.skip(2));
    } else if t.len() > 0 && t[0] != '"' {
        lemma_string_body_shorter(t.skip(1));
    }
}

/// Reading an address object consumes at least one character.
pub proof fn lemma_object_shorter(t: Seq<char>)
    ensures
        parse_address_object(t) matches Some((f, r)) ==> r.len() < t.len(),
{
    reveal(parse_address_object);
    if let Some(t1) = after_literal(t, "{\"street\":\""@) {
        lemma_string_body_shorter(t1);
        if let Some((_, t2)) = parse_string_body(t1) {
            if let Some(t3) = after_literal(t2, ",\"street_number\":\""@) {
                lemma_string_body_shorter(t3);
                if let Some((_, t4)) = parse_string_body(t3) {
                    if let Some(t5) = after_literal(t4, ",\"postal_code\":\""@) {
                        lemma_string_body_shorter(t5);
                    }
                }
            }
        }
    }
}

/// Reads the address objects from the start of `t` up to the closing bracket,
/// which must end the text: objects separated by commas.
pub open spec fn parse_items(t: Seq<char>) -> Option<Seq<(Seq<char>, Seq<char>, Seq<char>, bool)>>
    decreases t.len(),
{
    match parse_address_object(t) {
        None => None,
        Some((f, r)) => if r == seq![']'] {
            Some(seq![f])
        } else if r.len() > 0 && r[0] == ',' {
            proof {
                lemma_object_shorter(t);
            }
            match parse_items(r.skip(1)) {
                Some(fs) => Some(seq![f] + fs),
                None => None,
            }
        } else {
            None
        },
    }
}

/// Reads a JSON array of addresses, as `serialize_addresses` writes it: the fields
/// of each address in order; nothing when the text is not of that form.
pub open spec fn parse_addresses_json(t: Seq<char>) -> Option<Seq<(Seq<char>, Seq<char>, Seq<char>, bool)>> {
    if t.len() > 0 && t[0] == '[' {
        if t.skip(1) == seq![']'] {
            Some(Seq::empty())
        } else {
            parse_items(t.skip(1))
        }
    } else {
        None
    }
}

proof fn lemma_after_literal(lit: Seq<char>, rest: Seq<char>)
    ensures
        after_literal(lit + rest, lit) == Some(rest),
{
    assert((lit + rest).take(lit.len() as int) =~= lit);
    assert((lit + rest).skip(lit.len() as int) =~= rest);
}

proof fn lemma_string_roundtrip(x: Seq<char>, r: Seq<char>)
    ensures
        parse_string_body(escaped(x) + seq!['"'] + r) == Some((x, r)),
    decreases x.len(),
{
    let t = escaped(x) + seq!['"'] + r;
    if x.len() == 0 {
        assert(escaped(x) =~= Seq::<char>::empty());
        assert(t.skip(1) =~= r);
        assert(x =~= Seq::<char>::empty());
    } else {
        let xd = x.drop_first();
        lemma_escaped_front(x);
        lemma_string_roundtrip(xd, r);
        let e = escape_char(x[0]);
        let rest = escaped(xd) + seq!['"'] + r;
        assert(t =~= e + rest);
        if needs_escape(x[0]) {
            assert(t.skip(2) =~= rest);
        } else {
            assert(t.skip(1) =~= rest);
        }
        assert(seq![x[0]] + xd =~= x);
    }
}

proof fn lemma_object_roundtrip(a: StoredAddress, r: Seq<char>)
    ensures
        parse_address_object(address_json(a) + r) == Some((fields_of(a), r)),
{
    reveal(parse_address_object);
    reveal_strlit("{\"street\":\"");
    reveal_strlit("\",\"street_number\":\"");
    reveal_strlit(",\"street_number\":\"");
    reveal_strlit("\",\"postal_code\":\"");
    reveal_strlit(",\"postal_code\":\"");
    reveal_strlit("\",\"active\":");
    reveal_strlit(",\"active\":");
    reveal_strlit("true");
    reveal_strlit("false");
    reveal_strlit("}");
    reveal_strlit("true}");
    reveal_strlit("false}");
    let q = seq!['"'];
    let l0 = "{\"street\":\""@;
    let l1 = ",\"street_number\":\""@;
    let l2 = ",\"postal_code\":\""@;
    let l3 = ",\"active\":"@;
    let tail = if a.active { "true}"@ } else { "false}"@ };
    assert("\",\"street_number\":\""@ =~= q + l1);
    assert("\",\"postal_code\":\""@ =~= q + l2);
    assert("\",\"active\":"@ =~= q + l3);
    assert((if a.active { "true"@ } else { "false"@ }) + "}"@ =~= tail);
    let t7 = tail + r;
    let t6 = l3 + t7;
    let t5 = escaped(a.postal_code@) + q + t6;
    let t4 = l2 + t5;
    let t3 = escaped(a.street_number@) + q + t4;
    let t2 = l1 + t3;
    let t1 = escaped(a.street@) + q + t2;
    assert(address_json(a) + r =~= l0 + t1);
    lemma_after_literal(l0, t1);
    lemma_string_roundtrip(a.street@, t2);
    lemma_after_literal(l1, t3);
    lemma_string_roundtrip(a.street_number@, t4);
    lemma_after_literal(l2, t5);
    lemma_string_roundtrip(a.postal_code@, t6);
    lemma_after_literal(l3, t7);
    if a.active {
        lemma_after_literal("true}"@, r);
    } else {
        assert(t7.take(5)[0] == 'f');
        assert("true}"@[0] == 't');
        assert(after_literal(t7, "true}"@) is None);
        lemma_after_literal("false}"@, r);
    }
}

proof fn lemma_items_front(s: Seq<StoredAddress>)
    requires
        s.len() >= 2,
    ensures
        json_items(s) == address_json(s[0]) + ","@ + json_items(s.drop_first()),
    decreases s.len(),
{
    let d = s.drop_last();
    if s.len() == 2 {
        assert(d.len() == 1 && d[0] == s[0]);
        assert(json_items(d) == address_json(s[0]));
        assert(s.last() == s[1]);
        assert(s.drop_first().len() == 1 && s.drop_first()[0] == s[1]);
        assert(json_items(s.drop_first()) == address_json(s[1]));
        assert(json_items(s) == json_items(d) + ","@ + address_json(s.last()));
    } else {
        lemma_items_front(d);
        assert(d[0] == s[0]);
        assert(s.drop_first().drop_last() =~= d.drop_first());
        assert(s.drop_first().last() == s.last());
        assert(json_items(s) =~= address_json(s[0]) + ","@ + json_items(s.drop_first()));
    }
}

proof fn lemma_items_roundtrip(s: Seq<StoredAddress>)
    requires
        s.len() >= 1,
    ensures
        parse_items(json_items(s) + seq![']']) == Some(s.map_values(|a: StoredAddress| fields_of(a))),
    decreases s.len(),
{
    reveal_strlit(",");
    let m = s.map_values(|a: StoredAddress| fields_of(a));
    if s.len() == 1 {
        assert(json_items(s) == address_json(s[0]));
        lemma_object_roundtrip(s[0], seq![']']);
        assert(m =~= seq![fields_of(s[0])]);
    } else {
        let sd = s.drop_first();
        lemma_items_front(s);
        lemma_items_roundtrip(sd);
        let r = seq![','] + (json_items(sd) + seq![']']);
        assert(json_items(s) + seq![']'] =~= address_json(s[0]) + r);
        lemma_object_roundtrip(s[0], r);
        assert(r[0] == ',');
        assert(r.len() > 1);
        assert(r != seq![']']);
        assert(r.skip(1) =~= json_items(sd) + seq![']']);
        assert(m =~= seq![fields_of(s[0])] + sd.map_values(|a: StoredAddress| fields_of(a)));
    }
}

/// Reading back the JSON text that `serialize_addresses` writes gives the street,
/// number, postal code and active flag of every address, in order.
pub proof fn lemma_serialize_then_parse(s: Seq<StoredAddress>)
    ensures
        parse_addresses_json(addresses_json(s)) == Some(s.map_values(|a: StoredAddress| fields_of(a))),
{
    reveal_strlit("[");
    reveal_strlit("]");
    let t = addresses_json(s);
    assert(t[0] == '[');
    assert(t.skip(1) =~= json_items(s) + seq![']']);
    if s.len() == 0 {
        assert(json_items(s) =~= Seq::<char>::empty());
        assert(t.skip(1) =~= seq![']']);
        assert(s.map_values(|a: StoredAddress| fields_of(a)) =~= Seq::empty());
    } else {
        lemma_items_roundtrip(s);
        if s.len() == 1 {
            assert(json_items(s) == address_json(s[0]));
        } else {
            lemma_items_front(s);
        }
        reveal_strlit("{\"street\":\"");
        assert(json_items(s).len() > 0);
        assert(t.skip(1).len() > 1);
    }
}

/// Reads the body of a JSON string that starts at position `i` of `s` (of length
/// `n`): the text it stands for and the position after its closing quote.
fn read_string_at(s: &str, n: usize, i: usize) -> (r: Option<(String, usize)>)
    requires
        n == s@.len(),
        i <= n,
    ensures
        match parse_string_body(s@.skip(i as int)) {
            Some((c, rest)) => r matches Some((out, j)) && out@ == c && j <= n && rest == s@.skip(j as int),
            None => r is None,
        },
{
    let mut out = String::new();
    let mut j = i;
    loop
        invariant
            n == s@.len(),
            i <= j <= n,
            parse_string_body(s@.skip(i as int)) == match parse_string_body(s@.skip(j as int)) {
                Some((c, rest)) => Some((out@ + c, rest)),
                None => None,
            },
        decreases n - j,
    {
        let ghost t = s@.skip(j as int);
        let ghost before = out@;
        if j >= n {
            assert(t.len() == 0);
            return None;
        }
        let c = s.get_char(j);
        proof {
            assert(t[0] == c);
            assert(t.skip(1) =~= s@.skip(j + 1));
        }
        if c == '"' {
            assert(out@ + Seq::<char>::empty() =~= out@);
            return Some((out, j + 1));
        } else if c == '\\' {
            if j + 1 >= n {
                return None;
            }
            let d = s.get_char(j + 1);
            proof {
                assert(t[1] == d);
                assert(t.skip(2) =~= s@.skip(j + 2));
                reveal_strlit("\n");
                reveal_strlit("\r");
                reveal_strlit("\t");
            }
            if d == 'n' {
                out.append("\n");
            } else if d == 'r' {
                out.append("\r");
            } else if d == 't' {
                out.append("\t");
            } else if d == '\\' || d == '"' {
                let one = s.substring_char(j + 1, j + 2);
                assert(one@ =~= seq![d]);
                out.append(one);
            } else {
                return None;
            }
            proof {
                assert(out@ =~= before + seq![unescape_letter(d)]);
                match parse_string_body(s@.skip(j + 2)) {
                    Some((c2, r2)) => {
                        assert(before + (seq![unescape_letter(d)] + c2) =~= out@ + c2);
                    },
                    None => {},
                }
            }
            j = j + 2;
        } else {
            let one = s.substring_char(j, j + 1);
            assert(one@ =~= seq![c]);
            out.append(one);
            proof {
                match parse_string_body(s@.skip(j + 1)) {
                    Some((c2, r2)) => {
                        assert(before + (seq![c] + c2) =~= out@ + c2);
                    },
                    None => {},
                }
            }
            j = j + 1;
        }
    }
}

/// Whether `lit` stands at position `i` of `s` (of length `n`); the position
/// after it when it does.
fn literal_at(s: &str, n: usize, i: usize, lit: &str) -> (r: Option<usize>)
    requires
        n == s@.len(),
        i <= n,
    ensures
        match after_literal(s@.skip(i as int), lit@) {
            Some(rest) => r matches Some(j) && j <= n && rest == s@.skip(j as int),
            None => r is None,
        },
{
    let m = lit.unicode_len();
    if m > n - i {
        return None;
    }
    let mut k: usize = 0;
    while k < m
        invariant
            n == s@.len(),
            i <= n,
            m == lit@.len(),
            m <= n - i,
            k <= m,
            forall|q: int| 0 <= q < k ==> s@[i + q] == lit@[q],
        decreases m - k,
    {
        if s.get_char(i + k) != lit.get_char(k) {
            assert(s@.skip(i as int).take(m as int)[k as int] == s@[i + k]);
            return None;
        }
        k = k + 1;
    }
    assert(s@.skip(i as int).take(m as int) =~= lit@);
    assert(s@.skip(i as int).skip(m as int) =~= s@.skip(i + m));
    Some(i + m)
}

/// Reads the JSON object of an address at position `i` of `s` (of length `n`):
/// street, number, postal code, active flag, and the position after the object.
fn read_object_at(s: &str, n: usize, i: usize) -> (r: Option<((String, String, String, bool), usize)>)
    requires
        n == s@.len(),
        i <= n,
    ensures
        match parse_address_object(s@.skip(i as int)) {
            Some((f, rest)) => r matches Some((g, j)) && (g.0@, g.1@, g.2@, g.3) == f && j <= n && rest
                == s@.skip(j as int),
            None => r is None,
        },
{
    proof {
        reveal(parse_address_object);
    }
    let j1 = match literal_at(s, n, i, "{\"street\":\"") {
        Some(j) => j,
        None => return None,
    };
    let (street, j2) = match read_string_at(s, n, j1) {
        Some(p) => p,
        None => return None,
    };
    let j3 = match literal_at(s, n, j2, ",\"street_number\":\"") {
        Some(j) => j,
        None => return None,
    };
    let (number, j4) = match read_string_at(s, n, j3) {
        Some(p) => p,
        None => return None,
    };
    let j5 = match literal_at(s, n, j4, ",\"postal_code\":\"") {
        Some(j) => j,
        None => return None,
    };
    let (postal, j6) = match read_string_at(s, n, j5) {
        Some(p) => p,
        None => return None,
    };
    let j7 = match literal_at(s, n, j6, ",\"active\":") {
        Some(j) => j,
        None => return None,
    };
    match literal_at(s, n, j7, "true}") {
        Some(j8) => {
            return Some(((street, number, postal, true), j8));
        },
        None => {},
    }
    match literal_at(s, n, j7, "false}") {
        Some(j8) => Some(((street, number, postal, false), j8)),
        None => None,
    }
}

/// Reads back a JSON array of addresses in the form that `serialize_addresses`
/// writes. Each address gets its position as id, is not valid and has no
/// restriction (those are looked up again); text of another form is an error.
pub fn deserialize_addresses(json: &str) -> (r: Result<Vec<StoredAddress>, String>)
    ensures
        match parse_addresses_json(json@) {
            Some(fs) => r matches Ok(v) && v@.map_values(|a: StoredAddress| fields_of(a)) == fs && forall|k: int|
                0 <= k < v@.len() ==> (#[trigger] v@[k]).id == k && !v@[k].valid && v@[k].matched_entry is None,
            None => r is Err,
        },
{
    let n = json.unicode_len();
    let mut v: Vec<StoredAddress> = Vec::new();
    if n == 0 || json.get_char(0) != '[' {
        return Err(String::from_str("malformed address list"));
    }
    if n == 2 && json.get_char(1) == ']' {
        assert(json@.skip(1) =~= seq![']']);
        assert(v@.map_values(|a: StoredAddress| fields_of(a)) =~= Seq::empty());
        return Ok(v);
    }
    proof {
        if json@.skip(1) == seq![']'] {
            assert(json@.skip(1)[0] == json@[1]);
        }
        assert(v@.map_values(|a: StoredAddress| fields_of(a)) =~= Seq::empty());
        match parse_items(json@.skip(1)) {
            Some(fs) => {
                assert(Seq::<(Seq<char>, Seq<char>, Seq<char>, bool)>::empty() + fs =~= fs);
            },
            None => {},
        }
    }
    let mut j: usize = 1;
    loop
        invariant
            n == json@.len(),
            1 <= j <= n,
            parse_addresses_json(json@) == match parse_items(json@.skip(j as int)) {
                Some(fs) => Some(v@.map_values(|a: StoredAddress| fields_of(a)) + fs),
                None => None,
            },
            forall|k: int|
                0 <= k < v@.len() ==> (#[trigger] v@[k]).id == k && !v@[k].valid && v@[k].matched_entry is None,
        decreases n - j,
    {
        let ghost t = json@.skip(j as int);
        proof {
            lemma_object_shorter(t);
        }
        match read_object_at(json, n, j) {
            None => {
                return Err(String::from_str("malformed address list"));
            },
            Some((g, k)) => {
                let ghost before = v@;
                let ghost f = (g.0@, g.1@, g.2@, g.3);
                let ghost rest = json@.skip(k as int);
                let a = StoredAddress {
                    id: v.len(),
                    street: g.0,
                    street_number: g.1,
                    postal_code: g.2,
                    valid: false,
                    active: g.3,
                    matched_entry: None,
                };
                v.push(a);
                proof {
                    assert(v@.map_values(|a: StoredAddress| fields_of(a)) =~= before.map_values(
                        |a: StoredAddress| fields_of(a),
                    ).push(f));
                }
                if k < n && n - k == 1 && json.get_char(k) == ']' {
                    assert(rest =~= seq![']']);
                    assert(before.map_values(|a: StoredAddress| fields_of(a)) + seq![f] =~= v@.map_values(
                        |a: StoredAddress| fields_of(a),
                    ));
                    return Ok(v);
                } else if k < n && json.get_char(k) == ',' {
                    proof {
                        assert(rest[0] == ',');
                        assert(rest != seq![']']);
                        assert(rest.skip(1) =~= json@.skip(k + 1));
                        match parse_items(json@.skip(k + 1)) {
                            Some(fs) => {
                                assert(before.map_values(|a: StoredAddress| fields_of(a)) + (seq![f] + fs)
                                    =~= v@.map_values(|a: StoredAddress| fields_of(a)) + fs);
                            },
                            None => {},
                        }
                    }
                    j = k + 1;
                } else {
                    proof {
                        if rest == seq![']'] {
                            assert(rest[0] == json@[k as int]);
                        }
                        if rest.len() > 0 {
                            assert(rest[0] == json@[k as int]);
                        }
                    }
                    return Err(String::from_str("malformed address list"));
                }
            },
        }
    }
}

/// The addresses held by this backend: none.
pub fn read_addresses_from_device() -> (r: Vec<StoredAddress>)
    ensures
        r@.len() == 0,
{
    Vec::new()
}

/// Hands the addresses to this backend, which keeps nothing; always succeeds.
pub fn write_addresses_to_device(addresses: &Vec<StoredAddress>) -> (r: Result<(), String>)
    ensures
        r is Ok,
{
    Ok(())
}

/// Clears the addresses of this backend; always succeeds.
pub fn clear_all_addresses() -> (r: Result<(), String>)
    ensures
        r is Ok,
{
    Ok(())
}

/// Number of addresses held by this backend.
pub fn count_stored_addresses() -> (r: usize)
    ensures
        r == 0,
{
    read_addresses_from_device().len()
}

} // verus!
