//! Character and string helpers with their specifications: decimal numerals,
//! Unicode white space, trimming, UTF-8 length, equality, lower case.
use vstd::prelude::*;

verus! {

/// Decimal numeral of a natural number, without leading zeros.
pub open spec fn decimal(n: nat) -> Seq<char>
    decreases n,
{
    if n < 10 {
        seq![digit_char(n)]
    } else {
        decimal(n / 10).push(digit_char(n % 10))
    }
}

/// The ASCII digit for 0..=9.
pub open spec fn digit_char(d: nat) -> char {
    if d == 0 { '0' }
    else if d == 1 { '1' }
    else if d == 2 { '2' }
    else if d == 3 { '3' }
    else if d == 4 { '4' }
    else if d == 5 { '5' }
    else if d == 6 { '6' }
    else if d == 7 { '7' }
    else if d == 8 { '8' }
    else { '9' }
}

/// Decimal numeral of a natural number with at least two digits (`{:02}`).
pub open spec fn decimal2(n: nat) -> Seq<char> {
    if n < 10 { seq!['0'] + decimal(n) } else { decimal(n) }
}

/// The numeral of one decimal digit.
fn digit_str(d: u64) -> (r: &'static str)
    requires
        d < 10,
    ensures
        r@ == seq![digit_char(d as nat)],
{
    proof {
        reveal_strlit("0");
        reveal_strlit("1");
        reveal_strlit("2");
        reveal_strlit("3");
        reveal_strlit("4");
        reveal_strlit("5");
        reveal_strlit("6");
        reveal_strlit("7");
        reveal_strlit("8");
        reveal_strlit("9");
    }
    if d == 0 {
        "0"
    } else if d == 1 {
        "1"
    } else if d == 2 {
        "2"
    } else if d == 3 {
        "3"
    } else if d == 4 {
        "4"
    } else if d == 5 {
        "5"
    } else if d == 6 {
        "6"
    } else if d == 7 {
        "7"
    } else if d == 8 {
        "8"
    } else {
        "9"
    }
}

/// Decimal numeral of a number, without leading zeros.
pub fn u64_to_string(n: u64) -> (r: String)
    ensures
        r@ == decimal(n as nat),
    decreases n,
{
    if n < 10 {
        String::from_str(digit_str(n))
    } else {
        let mut s = u64_to_string(n / 10);
        s.append(digit_str(n % 10));
        s
    }
}

/// Decimal numeral with at least two digits.
pub fn u64_to_string2(n: u64) -> (r: String)
    ensures
        r@ == decimal2(n as nat),
{
    if n < 10 {
        let mut s = String::from_str("0");
        let d = u64_to_string(n);
        proof {
            reveal_strlit("0");
        }
        s.append(d.as_str());
        s
    } else {
        u64_to_string(n)
    }
}

/// Characters with the Unicode `White_Space` property, which `char::is_whitespace`
/// and `str::trim` use.
pub open spec fn is_white_space(c: char) -> bool {
    let v = c as u32;
    ||| 0x09 <= v <= 0x0D
    ||| v == 0x20
    ||| v == 0x85
    ||| v == 0xA0
    ||| v == 0x1680
    ||| 0x2000 <= v <= 0x200A
    ||| v == 0x2028
    ||| v == 0x2029
    ||| v == 0x202F
    ||| v == 0x205F
    ||| v == 0x3000
}

/// Whether `c` has the Unicode `White_Space` property.
pub fn is_whitespace(c: char) -> (r: bool)
    ensures
        r == is_white_space(c),
{
    let v = c as u32;
    (0x09 <= v && v <= 0x0D) || v == 0x20 || v == 0x85 || v == 0xA0 || v == 0x1680 || (0x2000 <= v
        && v <= 0x200A) || v == 0x2028 || v == 0x2029 || v == 0x202F || v == 0x205F || v == 0x3000
}

/// Number of leading white-space characters.
pub open spec fn leading_ws(s: Seq<char>) -> nat
    decreases s.len(),
{
    if s.len() > 0 && is_white_space(s[0]) {
        1 + leading_ws(s.drop_first())
    } else {
        0
    }
}

/// Number of trailing white-space characters.
pub open spec fn trailing_ws(s: Seq<char>) -> nat
    decreases s.len(),
{
    if s.len() > 0 && is_white_space(s.last()) {
        1 + trailing_ws(s.drop_last())
    } else {
        0
    }
}

/// `s` without leading and trailing white space (`str::trim`).
pub open spec fn trim(s: Seq<char>) -> Seq<char> {
    let a = leading_ws(s);
    if a == s.len() {
        Seq::empty()
    } else {
        s.subrange(a as int, s.len() - trailing_ws(s))
    }
}

proof fn lemma_leading_ws(s: Seq<char>, i: int)
    requires
        0 <= i <= s.len(),
        forall|k: int| 0 <= k < i ==> is_white_space(#[trigger] s[k]),
        i == s.len() || !is_white_space(s[i]),
    ensures
        leading_ws(s) == i,
    decreases i,
{
    if i > 0 {
        let t = s.drop_first();
        assert forall|k: int| 0 <= k < i - 1 implies is_white_space(#[trigger] t[k]) by {
            assert(t[k] == s[k + 1]);
        }
        if i < s.len() {
            assert(t[i - 1] == s[i]);
        }
        lemma_leading_ws(t, i - 1);
    }
}

proof fn lemma_trailing_ws(s: Seq<char>, j: int)
    requires
        0 <= j <= s.len(),
        forall|k: int| j <= k < s.len() ==> is_white_space(#[trigger] s[k]),
        j == 0 || !is_white_space(s[j - 1]),
    ensures
        trailing_ws(s) == s.len() - j,
    decreases s.len() - j,
{
    if j < s.len() {
        let t = s.drop_last();
        assert forall|k: int| j <= k < t.len() implies is_white_space(#[trigger] t[k]) by {
            assert(t[k] == s[k]);
        }
        if j > 0 {
            assert(t[j - 1] == s[j - 1]);
        }
        lemma_trailing_ws(t, j);
    }
}

/// `s` without leading and trailing white space.
pub fn trim_str(s: &str) -> (r: &str)
    ensures
        r@ == trim(s@),
{
    let n = s.unicode_len();
    let mut a: usize = 0;
    while a < n && is_whitespace(s.get_char(a))
        invariant
            n == s@.len(),
            a <= n,
            forall|k: int| 0 <= k < a ==> is_white_space(#[trigger] s@[k]),
        decreases n - a,
    {
        a = a + 1;
    }
    proof {
        lemma_leading_ws(s@, a as int);
    }
    if a == n {
        let e = s.substring_char(0, 0);
        assert(e@ =~= trim(s@));
        return e;
    }
    let mut b: usize = n;
    while b > a && is_whitespace(s.get_char(b - 1))
        invariant
            n == s@.len(),
            a < n,
            !is_white_space(s@[a as int]),
            a <= b <= n,
            forall|k: int| b <= k < n ==> is_white_space(#[trigger] s@[k]),
        decreases b,
    {
        b = b - 1;
    }
    proof {
        if b == a {
            assert(false);
        }
        lemma_trailing_ws(s@, b as int);
    }
    s.substring_char(a, b)
}

/// Whether two strings hold the same characters.
pub fn str_eq(a: &str, b: &str) -> (r: bool)
    ensures
        r == (a@ == b@),
{
    let n = a.unicode_len();
    if n != b.unicode_len() {
        return false;
    }
    let mut i: usize = 0;
    while i < n
        invariant
            n == a@.len(),
            n == b@.len(),
            i <= n,
            forall|k: int| 0 <= k < i ==> a@[k] == b@[k],
        decreases n - i,
    {
        if a.get_char(i) != b.get_char(i) {
            return false;
        }
        i = i + 1;
    }
    assert(a@ =~= b@);
    true
}

/// Lower-case mapping of a string under the Unicode `Lowercase` property, as
/// `str::to_lowercase` computes it.
pub uninterp spec fn lowercase(s: Seq<char>) -> Seq<char>;

/// Calls `str::to_lowercase`. Claimed: the result is the lower-case mapping of `s`,
/// a function of `s` alone.
#[verifier::external_body]
pub fn to_lowercase(s: &str) -> (r: String)
    ensures
        r@ == lowercase(s@),
{
    s.to_lowercase()
}

/// `s` without its space characters (`str::replace(' ', "")`).
pub open spec fn remove_spaces(s: Seq<char>) -> Seq<char>
    decreases s.len(),
{
    if s.len() == 0 {
        Seq::empty()
    } else if s.last() == ' ' {
        remove_spaces(s.drop_last())
    } else {
        remove_spaces(s.drop_last()).push(s.last())
    }
}

/// A new string holding `s` without its space characters.
pub fn remove_spaces_string(s: &str) -> (r: String)
    ensures
        r@ == remove_spaces(s@),
{
    let n = s.unicode_len();
    let mut out = String::new();
    let mut i: usize = 0;
    while i < n
        invariant
            n == s@.len(),
            i <= n,
            out@ == remove_spaces(s@.subrange(0, i as int)),
        decreases n - i,
    {
        let c = s.get_char(i);
        proof {
            assert(s@.subrange(0, i + 1).drop_last() =~= s@.subrange(0, i as int));
            assert(s@.subrange(0, i + 1).last() == s@[i as int]);
        }
        if c != ' ' {
            let piece = s.substring_char(i, i + 1);
            proof {
                assert(piece@ =~= seq![c]);
            }
            out.append(piece);
            proof {
                assert(out@ =~= remove_spaces(s@.subrange(0, i as int)).push(c));
            }
        }
        i = i + 1;
    }
    assert(s@.subrange(0, n as int) =~= s@);
    out
}

/// Whether every character of `s` is an ASCII digit.
pub open spec fn all_digits(s: Seq<char>) -> bool {
    forall|i: int| 0 <= i < s.len() ==> '0' <= #[trigger] s[i] <= '9'
}

/// The white-space separated words of `s` (`str::split_whitespace`).
pub open spec fn words(s: Seq<char>) -> Seq<Seq<char>>
    decreases s.len(),
{
    if s.len() == 0 {
        Seq::empty()
    } else {
        let w = words(s.drop_last());
        let c = s.last();
        if is_white_space(c) {
            w
        } else if s.len() >= 2 && !is_white_space(s[s.len() - 2]) {
            w.update(w.len() - 1, w.last().push(c))
        } else {
            w.push(seq![c])
        }
    }
}

/// The views of a list of strings.
pub open spec fn string_views(v: Seq<String>) -> Seq<Seq<char>> {
    v.map_values(|x: String| x@)
}

/// The white-space separated words of `s`.
pub fn split_whitespace_words(s: &str) -> (r: Vec<String>)
    ensures
        string_views(r@) == words(s@),
{
    let n = s.unicode_len();
    let mut out: Vec<String> = Vec::new();
    let mut i: usize = 0;
    while i < n
        invariant
            n == s@.len(),
            i <= n,
            string_views(out@) == words(s@.take(i as int)),
            i > 0 && !is_white_space(s@[i - 1]) ==> out@.len() > 0,
        decreases n - i,
    {
        let c = s.get_char(i);
        let ghost before = out@;
        proof {
            assert(s@.take(i + 1).drop_last() =~= s@.take(i as int));
            assert(s@.take(i + 1).last() == c);
            if i > 0 {
                assert(s@.take(i + 1)[i - 1] == s@[i - 1]);
            }
        }
        if !is_whitespace(c) {
            let piece = s.substring_char(i, i + 1);
            assert(piece@ =~= seq![c]);
            if i > 0 && !is_whitespace(s.get_char(i - 1)) {
                let mut last = out.pop().unwrap();
                let ghost popped = last@;
                last.append(piece);
                out.push(last);
                proof {
                    assert(popped == before[before.len() - 1]@);
                    assert forall|k: int| 0 <= k < before.len() - 1 implies out@[k] == before[k] by {}
                    assert(out@[before.len() - 1]@ == popped.push(c));
                    assert(string_views(out@) =~= string_views(before).update(
                        before.len() - 1,
                        string_views(before).last().push(c),
                    ));
                }
            } else {
                out.push(piece.to_string());
                proof {
                    assert(string_views(out@) =~= string_views(before).push(seq![c]));
                }
            }
        }
        i = i + 1;
    }
    proof {
        assert(s@.take(n as int) =~= s@);
    }
    out
}

/// `name` placed in the directory `dir`: a `/` goes between them unless `dir` is
/// empty or already ends with one (`PathBuf::push` of a relative name).
pub open spec fn joined_path(dir: Seq<char>, name: Seq<char>) -> Seq<char> {
    if dir.len() == 0 || dir.last() == '/' {
        dir + name
    } else {
        dir + seq!['/'] + name
    }
}

/// Places `name` in the directory `dir`.
pub fn join_path(dir: &str, name: &str) -> (r: String)
    ensures
        r@ == joined_path(dir@, name@),
{
    let n = dir.unicode_len();
    let mut s = String::from_str(dir);
    if n > 0 && dir.get_char(n - 1) != '/' {
        s.append("/");
        proof {
            reveal_strlit("/");
        }
    }
    s.append(name);
    s
}


/// The smallest of three numbers.
pub open spec fn min3(x: nat, y: nat, z: nat) -> nat {
    if x <= y && x <= z { x } else if y <= z { y } else { z }
}

/// Levenshtein distance: the least number of single-character insertions,
/// deletions and substitutions that turn `a` into `b`.
pub open spec fn edit_distance(a: Seq<char>, b: Seq<char>) -> nat
    decreases a.len() + b.len(),
{
    if a.len() == 0 {
        b.len()
    } else if b.len() == 0 {
        a.len()
    } else {
        min3(
            edit_distance(a.drop_last(), b.drop_last()) + (if a.last() == b.last() { 0nat } else { 1nat }),
            edit_distance(a.drop_last(), b) + 1,
            edit_distance(a, b.drop_last()) + 1,
        )
    }
}

/// A distance, counted no further than 4.
pub open spec fn capped4(d: nat) -> nat {
    if d < 4 { d } else { 4 }
}

fn chars_of(s: &str) -> (r: Vec<char>)
    ensures
        r@ == s@,
{
    let n = s.unicode_len();
    let mut out: Vec<char> = Vec::new();
    let mut i: usize = 0;
    while i < n
        invariant
            n == s@.len(),
            i <= n,
            out@ == s@.subrange(0, i as int),
        decreases n - i,
    {
        out.push(s.get_char(i));
        i = i + 1;
        assert(out@ =~= s@.subrange(0, i as int));
    }
    assert(out@ =~= s@);
    out
}

fn small_min3(x: u8, y: u8, z: u8) -> (r: u8)
    ensures
        r == min3(x as nat, y as nat, z as nat),
{
    if x <= y && x <= z { x } else if y <= z { y } else { z }
}

/// Whether `a` turns into `b` with at most three single-character insertions,
/// deletions or substitutions.
pub fn within_three_edits(a: &str, b: &str) -> (r: bool)
    ensures
        r == (edit_distance(a@, b@) <= 3),
{
    let av = chars_of(a);
    let bv = chars_of(b);
    let n = av.len();
    let m = bv.len();
    let ghost sa = a@;
    let ghost sb = b@;
    // Row 0: the distances from the empty prefix of `a`.
    let mut prev0: u8 = 0;
    let mut prev: Vec<u8> = Vec::new();
    let mut j: usize = 0;
    while j < m
        invariant
            m == sb.len(),
            j <= m,
            prev@.len() == j,
            forall|k: int| 0 <= k < j ==> #[trigger] prev@[k] == capped4(edit_distance(sa.take(0), sb.take(k + 1))),
        decreases m - j,
    {
        let v: u8 = if j < 3 { (j + 1) as u8 } else { 4 };
        proof {
            assert(sa.take(0).len() == 0);
            assert(sb.take(j + 1).len() == j + 1);
        }
        prev.push(v);
        j = j + 1;
    }
    proof {
        assert(edit_distance(sa.take(0), sb.take(0)) == 0);
    }
    let mut i: usize = 0;
    while i < n
        invariant
            av@ == sa,
            bv@ == sb,
            n == sa.len(),
            m == sb.len(),
            i <= n,
            prev@.len() == m,
            prev0 as nat == capped4(edit_distance(sa.take(i as int), sb.take(0))),
            forall|k: int| 0 <= k < m ==> #[trigger] prev@[k] == capped4(edit_distance(sa.take(i as int), sb.take(k + 1))),
        decreases n - i,
    {
        let ai = av[i];
        let ghost pa = sa.take(i + 1);
        proof {
            assert(pa.drop_last() =~= sa.take(i as int));
            assert(pa.last() == ai);
            assert(pa.len() == i + 1);
            assert(sb.take(0).len() == 0);
        }
        let cur0: u8 = if i < 3 { (i + 1) as u8 } else { 4 };
        let mut cur: Vec<u8> = Vec::new();
        let mut j: usize = 0;
        while j < m
            invariant
                av@ == sa,
                bv@ == sb,
                n == sa.len(),
                m == sb.len(),
                i < n,
                ai == sa[i as int],
                pa == sa.take(i + 1),
                pa.drop_last() == sa.take(i as int),
                pa.last() == ai,
                j <= m,
                prev@.len() == m,
                cur@.len() == j,
                prev0 as nat == capped4(edit_distance(sa.take(i as int), sb.take(0))),
                cur0 as nat == capped4(edit_distance(pa, sb.take(0))),
                forall|k: int| 0 <= k < m ==> #[trigger] prev@[k] == capped4(edit_distance(sa.take(i as int), sb.take(k + 1))),
                forall|k: int| 0 <= k < j ==> #[trigger] cur@[k] == capped4(edit_distance(pa, sb.take(k + 1))),
            decreases m - j,
        {
            let diag = if j == 0 { prev0 } else { prev[j - 1] };
            let up = prev[j];
            let left = if j == 0 { cur0 } else { cur[j - 1] };
            let cost: u8 = if ai == bv[j] { 0 } else { 1 };
            let best = small_min3(diag + cost, up + 1, left + 1);
            let v: u8 = if best < 4 { best } else { 4 };
            proof {
                let pb = sb.take(j + 1);
                assert(pb.drop_last() =~= sb.take(j as int));
                assert(pb.last() == sb[j as int]);
                if j > 0 {
                    assert(sb.take(j as int) == sb.take((j - 1) + 1));
                }
                assert(v == capped4(edit_distance(pa, pb)));
            }
            cur.push(v);
            j = j + 1;
        }
        prev0 = cur0;
        prev = cur;
        i = i + 1;
    }
    proof {
        assert(sa.take(n as int) =~= sa);
        assert(sb.take(m as int) =~= sb);
    }
    let d = if m == 0 { prev0 } else { prev[m - 1] };
    d <= 3
}

} // verus!
