//! Reading the address typed in the top bar: `Street name 12A` becomes the street
//! (the words before the first word with a digit) and the number (the rest).
use vstd::prelude::*;
use crate::text::{
    is_white_space, lowercase, split_whitespace_words, string_views, to_lowercase, trim, trim_str, words,
};
use crate::ui::{contains_seq, contains_str};

verus! {

/// Whether a word holds an ASCII digit.
pub open spec fn has_ascii_digit(w: Seq<char>) -> bool {
    exists|i: int| 0 <= i < w.len() && '0' <= #[trigger] w[i] <= '9'
}

/// Index of the first word that holds an ASCII digit.
pub open spec fn first_with_digit(ws: Seq<Seq<char>>) -> Option<int>
    decreases ws.len(),
{
    if ws.len() == 0 {
        None
    } else {
        match first_with_digit(ws.drop_last()) {
            Some(i) => Some(i),
            None => if has_ascii_digit(ws.last()) { Some(ws.len() - 1) } else { None },
        }
    }
}

/// Words joined with single spaces.
pub open spec fn joined(ws: Seq<Seq<char>>) -> Seq<char>
    decreases ws.len(),
{
    if ws.len() == 0 {
        Seq::empty()
    } else if ws.len() == 1 {
        ws[0]
    } else {
        joined(ws.drop_last()) + seq![' '] + ws.last()
    }
}

/// Street and number of a typed address: at least two words, and a first word
/// with a digit that is not the first word.
pub open spec fn parsed_address(s: Seq<char>) -> Option<(Seq<char>, Seq<char>)> {
    let w = words(s);
    if trim(s).len() == 0 || w.len() < 2 {
        None
    } else {
        match first_with_digit(w) {
            Some(i) => if i > 0 { Some((joined(w.take(i)), joined(w.skip(i)))) } else { None },
            None => None,
        }
    }
}

fn word_has_digit(w: &str) -> (r: bool)
    ensures
        r == has_ascii_digit(w@),
{
    let n = w.unicode_len();
    let mut i: usize = 0;
    while i < n
        invariant
            n == w@.len(),
            i <= n,
            forall|k: int| 0 <= k < i ==> !('0' <= #[trigger] w@[k] <= '9'),
        decreases n - i,
    {
        let c = w.get_char(i);
        if '0' <= c && c <= '9' {
            return true;
        }
        i = i + 1;
    }
    false
}

fn join_words(ws: &Vec<String>, from: usize, to: usize) -> (r: String)
    requires
        from <= to <= ws@.len(),
    ensures
        r@ == joined(string_views(ws@).subrange(from as int, to as int)),
{
    let mut out = String::new();
    let mut i: usize = from;
    while i < to
        invariant
            from <= i <= to <= ws@.len(),
            out@ == joined(string_views(ws@).subrange(from as int, i as int)),
        decreases to - i,
    {
        let ghost sv = string_views(ws@);
        proof {
            assert(sv.subrange(from as int, i + 1).drop_last() =~= sv.subrange(from as int, i as int));
            assert(sv.subrange(from as int, i + 1).last() == ws@[i as int]@);
            reveal_strlit(" ");
        }
        if i > from {
            out.append(" ");
        } else {
            proof {
                assert(sv.subrange(from as int, i as int).len() == 0);
            }
        }
        out.append(ws[i].as_str());
        i = i + 1;
    }
    out
}

/// Reads a typed address into street and number; nothing when it is blank, has
/// fewer than two words, or no word after the first holds a digit first.
pub fn parse_address_input(address: &str) -> (r: Option<(String, String)>)
    ensures
        match parsed_address(address@) {
            Some((s, n)) => r matches Some(p) && p.0@ == s && p.1@ == n,
            None => r is None,
        },
{
    if trim_str(address).unicode_len() == 0 {
        return None;
    }
    let ws = split_whitespace_words(address);
    let ghost sv = string_views(ws@);
    if ws.len() < 2 {
        return None;
    }
    let mut i: usize = 0;
    while i < ws.len()
        invariant
            sv == string_views(ws@),
            sv == words(address@),
            trim(address@).len() > 0,
            ws@.len() >= 2,
            i <= ws@.len(),
            first_with_digit(sv.take(i as int)) is None,
        decreases ws@.len() - i,
    {
        proof {
            assert(sv.take(i + 1).drop_last() =~= sv.take(i as int));
            assert(sv.take(i + 1).last() == ws@[i as int]@);
        }
        if word_has_digit(ws[i].as_str()) {
            proof {
                lemma_first_with_digit_found(sv, i as int);
            }
            if i == 0 {
                return None;
            }
            let street = join_words(&ws, 0, i);
            let number = join_words(&ws, i, ws.len());
            proof {
                assert(sv.subrange(0, i as int) =~= sv.take(i as int));
                assert(sv.subrange(i as int, sv.len() as int) =~= sv.skip(i as int));
            }
            return Some((street, number));
        }
        i = i + 1;
    }
    proof {
        assert(sv.take(sv.len() as int) =~= sv);
    }
    None
}

proof fn lemma_first_with_digit_found(ws: Seq<Seq<char>>, i: int)
    requires
        0 <= i < ws.len(),
        first_with_digit(ws.take(i)) is None,
        has_ascii_digit(ws[i]),
    ensures
        first_with_digit(ws) == Some(i),
    decreases ws.len(),
{
    if ws.len() > i + 1 {
        let t = ws.drop_last();
        assert(t.take(i) =~= ws.take(i));
        assert(t[i] == ws[i]);
        lemma_first_with_digit_found(t, i);
    } else {
        assert(ws.drop_last() =~= ws.take(i));
    }
}

/// The postal code to use: the typed one unless it is blank, else the one looked
/// up for the address (empty when none was found).
pub fn choose_postal_code(postal_input: &str, looked_up: Option<String>) -> (r: String)
    ensures
        trim(postal_input@).len() > 0 ==> r@ == postal_input@,
        trim(postal_input@).len() == 0 ==> r@ == (match looked_up {
            Some(p) => p@,
            None => Seq::<char>::empty(),
        }),
{
    if trim_str(postal_input).unicode_len() == 0 {
        match looked_up {
            Some(p) => p,
            None => String::new(),
        }
    } else {
        String::from_str(postal_input)
    }
}

/// The names of `all` that contain `query` once both are in lower case, in
/// their order.
pub open spec fn names_containing(all: Seq<String>, query: Seq<char>) -> Seq<Seq<char>>
    decreases all.len(),
{
    if all.len() == 0 {
        Seq::empty()
    } else {
        let earlier = names_containing(all.drop_last(), query);
        if contains_seq(lowercase(all.last()@), lowercase(query)) {
            earlier.push(all.last()@)
        } else {
            earlier
        }
    }
}

/// At most the first ten of `s`.
pub open spec fn first_ten(s: Seq<Seq<char>>) -> Seq<Seq<char>> {
    if s.len() <= 10 { s } else { s.take(10) }
}

/// Suggestions for the address being typed: nothing while the input is blank;
/// otherwise the first ten names of `all` that contain the input, ignoring case.
pub fn autocomplete_suggestions(input: &str, all: &Vec<String>) -> (r: Vec<String>)
    ensures
        trim(input@).len() == 0 ==> r@.len() == 0,
        trim(input@).len() > 0 ==> string_views(r@) == first_ten(names_containing(all@, input@)),
{
    let mut out: Vec<String> = Vec::new();
    if trim_str(input).unicode_len() == 0 {
        return out;
    }
    let query = to_lowercase(input);
    let mut i: usize = 0;
    while i < all.len()
        invariant
            i <= all@.len(),
            query@ == lowercase(input@),
            string_views(out@) == first_ten(names_containing(all@.take(i as int), input@)),
        decreases all@.len() - i,
    {
        let ghost before = names_containing(all@.take(i as int), input@);
        proof {
            assert(all@.take(i + 1).drop_last() =~= all@.take(i as int));
            assert(all@.take(i + 1).last() == all@[i as int]);
        }
        let name = to_lowercase(all[i].as_str());
        if contains_str(name.as_str(), query.as_str()) {
            if out.len() < 10 {
                let ghost old_out = out@;
                out.push(all[i].clone());
                proof {
                    assert(string_views(out@) =~= string_views(old_out).push(all@[i as int]@));
                    assert(first_ten(before.push(all@[i as int]@)) =~= before.push(all@[i as int]@));
                }
            } else {
                proof {
                    assert(first_ten(before.push(all@[i as int]@)) =~= first_ten(before));
                }
            }
        }
        i = i + 1;
    }
    proof {
        assert(all@.take(all@.len() as int) =~= all@);
    }
    out
}

} // verus!
