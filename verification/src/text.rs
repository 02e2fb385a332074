//! Character-level string helpers with their specifications.
//!
//! Strings are specified by their views (`Seq<char>`). The Unicode
//! lowercase mapping this crate depends on is the standard library's; it is
//! stated exactly for ASCII text, and everything built on top of it is
//! verified here.

use vstd::prelude::*;

verus! {

/// Whether `c` has the Unicode `White_Space` property: U+0009 to U+000D,
/// U+0020, U+0085, U+00A0, U+1680, U+2000 to U+200A, U+2028, U+2029, U+202F,
/// U+205F and U+3000.
pub open spec fn unicode_whitespace(c: char) -> bool {
    let n = c as int;
    ||| 0x09 <= n <= 0x0d
    ||| n == 0x20
    ||| n == 0x85
    ||| n == 0xa0
    ||| n == 0x1680
    ||| 0x2000 <= n <= 0x200a
    ||| n == 0x2028
    ||| n == 0x2029
    ||| n == 0x202f
    ||| n == 0x205f
    ||| n == 0x3000
}

/// The lowercase mapping of a string, as `str::to_lowercase` computes it.
pub uninterp spec fn unicode_lowercase(s: Seq<char>) -> Seq<char>;

/// Whether every character of `s` is ASCII.
pub open spec fn all_ascii(s: Seq<char>) -> bool {
    forall|i: int| 0 <= i < s.len() ==> (s[i] as int) < 128
}

/// The ASCII lowercase of a character: `A` to `Z` become `a` to `z`.
pub open spec fn ascii_lower_char(c: char) -> char {
    if 'A' <= c && c <= 'Z' {
        ((c as int) + 32) as char
    } else {
        c
    }
}

/// `char::is_whitespace`: true exactly for characters with the Unicode
/// `White_Space` property.
#[verifier::external_body]
pub(crate) fn is_whitespace(c: char) -> (r: bool)
    ensures
        r == unicode_whitespace(c),
{
    c.is_whitespace()
}

/// `str::to_lowercase`: the Unicode lowercase mapping of the whole string,
/// named `unicode_lowercase`; on ASCII text it maps `A` to `Z` to `a` to `z`
/// and keeps every other character.
#[verifier::external_body]
pub(crate) fn to_lowercase(s: &str) -> (r: String)
    ensures
        r@ == unicode_lowercase(s@),
        all_ascii(s@) ==> r@ == s@.map_values(|c: char| ascii_lower_char(c)),
{
    s.to_lowercase()
}

/// `str::chars` collected into a vector: the characters of the string, in order.
#[verifier::external_body]
pub(crate) fn chars_of(s: &str) -> (r: Vec<char>)
    ensures
        r@ == s@,
{
    s.chars().collect()
}

/// `String::from_iter` over characters: the string made of exactly these characters.
#[verifier::external_body]
pub(crate) fn string_from_chars(cs: &Vec<char>) -> (r: String)
    ensures
        r@ == cs@,
{
    cs.iter().collect()
}

/// The string with leading whitespace removed (`str::trim_start`).
pub open spec fn trim_start_spec(s: Seq<char>) -> Seq<char>
    decreases s.len(),
{
    if s.len() > 0 && unicode_whitespace(s[0]) {
        trim_start_spec(s.drop_first())
    } else {
        s
    }
}

/// The string with trailing whitespace removed (`str::trim_end`).
pub open spec fn trim_end_spec(s: Seq<char>) -> Seq<char>
    decreases s.len(),
{
    if s.len() > 0 && unicode_whitespace(s.last()) {
        trim_end_spec(s.drop_last())
    } else {
        s
    }
}

/// The string with leading and trailing whitespace removed (`str::trim`).
pub open spec fn trim_spec(s: Seq<char>) -> Seq<char> {
    trim_end_spec(trim_start_spec(s))
}

/// Whether `needle` occurs in `hay` as a contiguous run.
pub open spec fn contains_spec(hay: Seq<char>, needle: Seq<char>) -> bool {
    exists|i: int| 0 <= i <= hay.len() - needle.len() && #[trigger] hay.subrange(i, i + needle.len()) == needle
}

/// Whether `s` begins with `prefix`.
pub open spec fn starts_with_spec(s: Seq<char>, prefix: Seq<char>) -> bool {
    prefix.len() <= s.len() && s.subrange(0, prefix.len() as int) == prefix
}

/// Whether `s` ends with `suffix`.
pub open spec fn ends_with_spec(s: Seq<char>, suffix: Seq<char>) -> bool {
    suffix.len() <= s.len() && s.subrange(s.len() - suffix.len(), s.len() as int) == suffix
}

/// Every occurrence of `from` replaced by `to`.
pub open spec fn replace_char_spec(s: Seq<char>, from: char, to: char) -> Seq<char> {
    s.map_values(|c: char| if c == from { to } else { c })
}

/// The parts joined with `sep` between consecutive parts.
pub open spec fn join_spec(parts: Seq<Seq<char>>, sep: Seq<char>) -> Seq<char>
    decreases parts.len(),
{
    if parts.len() == 0 {
        Seq::empty()
    } else if parts.len() == 1 {
        parts[0]
    } else {
        join_spec(parts.drop_last(), sep) + sep + parts.last()
    }
}

/// The decimal digit character for `d` (`d < 10`).
pub open spec fn digit_char_spec(d: nat) -> char {
    if d == 0 { '0' }
    else if d == 1 { '1' }
    else if d == 2 { '2' }
    else if d == 3 { '3' }
    else if d == 4 { '4' }
    else if d == 5 { '5' }
    else if d == 6 { '6' }
    else if d == 7 { '7' }
    else if d == 8 { '8' }
    else { '9' }
}

/// The decimal representation of `n`, without leading zeros (`"0"` for zero).
pub open spec fn decimal_spec(n: nat) -> Seq<char>
    decreases n,
{
    if n < 10 {
        seq![digit_char_spec(n)]
    } else {
        decimal_spec(n / 10).push(digit_char_spec(n % 10))
    }
}

/// `s` left-padded with `'0'` up to `width` characters (`format!("{:0width$}")`).
pub open spec fn zero_pad_spec(s: Seq<char>, width: nat) -> Seq<char> {
    if s.len() >= width {
        s
    } else {
        Seq::new((width - s.len()) as nat, |i: int| '0') + s
    }
}

/// Trims leading and trailing whitespace.
pub fn trim(s: &str) -> (r: String)
    ensures
        r@ == trim_spec(s@),
{
    let cs = chars_of(s);
    let n = cs.len();
    let mut i: usize = 0;
    assert(cs@.subrange(0, n as int) =~= cs@);
    while i < n && is_whitespace(cs[i])
        invariant
            0 <= i <= n,
            n == cs@.len(),
            trim_start_spec(cs@) == trim_start_spec(cs@.subrange(i as int, n as int)),
        decreases n - i,
    {
        proof {
            let rest = cs@.subrange(i as int, n as int);
            assert(rest.drop_first() =~= cs@.subrange(i + 1, n as int));
        }
        i = i + 1;
    }
    let ghost start = cs@.subrange(i as int, n as int);
    assert(trim_start_spec(start) == start) by {
        if start.len() > 0 {
            assert(start[0] == cs@[i as int]);
        }
    }
    let mut j: usize = n;
    while j > i && is_whitespace(cs[j - 1])
        invariant
            i <= j <= n,
            n == cs@.len(),
            start == cs@.subrange(i as int, n as int),
            trim_end_spec(start) == trim_end_spec(cs@.subrange(i as int, j as int)),
        decreases j - i,
    {
        proof {
            let cur = cs@.subrange(i as int, j as int);
            assert(cur.drop_last() =~= cs@.subrange(i as int, j - 1));
            assert(cur.last() == cs@[j - 1]);
        }
        j = j - 1;
    }
    let mut out: Vec<char> = Vec::new();
    let mut k: usize = i;
    while k < j
        invariant
            i <= k <= j <= n,
            n == cs@.len(),
            out@ == cs@.subrange(i as int, k as int),
        decreases j - k,
    {
        out.push(cs[k]);
        proof {
            assert(out@ =~= cs@.subrange(i as int, k + 1));
        }
        k = k + 1;
    }
    proof {
        let fin = cs@.subrange(i as int, j as int);
        assert(trim_end_spec(fin) == fin) by {
            if fin.len() > 0 {
                assert(fin.last() == cs@[j - 1]);
            }
        }
    }
    string_from_chars(&out)
}

/// Whether the character sequences are equal.
pub fn chars_eq(a: &Vec<char>, b: &Vec<char>) -> (r: bool)
    ensures
        r == (a@ == b@),
{
    if a.len() != b.len() {
        return false;
    }
    let mut i: usize = 0;
    while i < a.len()
        invariant
            0 <= i <= a@.len(),
            a@.len() == b@.len(),
            forall|k: int| 0 <= k < i ==> a@[k] == b@[k],
        decreases a@.len() - i,
    {
        if a[i] != b[i] {
            return false;
        }
        i = i + 1;
    }
    assert(a@ =~= b@);
    true
}

/// Whether two strings hold the same characters.
pub fn str_eq(a: &str, b: &str) -> (r: bool)
    ensures
        r == (a@ == b@),
{
    let ca = chars_of(a);
    let cb = chars_of(b);
    chars_eq(&ca, &cb)
}

/// Whether `hay[at..at + needle.len()]` equals `needle`.
fn matches_at(hay: &Vec<char>, needle: &Vec<char>, at: usize) -> (r: bool)
    requires
        at + needle@.len() <= hay@.len(),
    ensures
        r == (hay@.subrange(at as int, at + needle@.len()) == needle@),
{
    let mut k: usize = 0;
    while k < needle.len()
        invariant
            0 <= k <= needle@.len(),
            at + needle@.len() <= hay@.len(),
            hay@.len() == hay.len(),
            forall|m: int| 0 <= m < k ==> hay@[at + m] == needle@[m],
        decreases needle@.len() - k,
    {
        if hay[at + k] != needle[k] {
            assert(hay@.subrange(at as int, at + needle@.len())[k as int] != needle@[k as int]);
            return false;
        }
        k = k + 1;
    }
    assert(hay@.subrange(at as int, at + needle@.len()) =~= needle@);
    true
}

/// Whether `needle` occurs in `hay`.
pub fn contains(hay: &str, needle: &str) -> (r: bool)
    ensures
        r == contains_spec(hay@, needle@),
{
    let h = chars_of(hay);
    let n = chars_of(needle);
    if n.len() > h.len() {
        return false;
    }
    if n.len() == 0 {
        assert(hay@.subrange(0int, 0int + needle@.len()) =~= needle@);
        return true;
    }
    let last = h.len() - n.len();
    let mut i: usize = 0;
    while i <= last
        invariant
            0 <= i <= last + 1,
            last == h@.len() - n@.len(),
            h@.len() == h.len(),
            n@.len() >= 1,
            h@ == hay@,
            n@ == needle@,
            forall|k: int| 0 <= k < i ==> #[trigger] h@.subrange(k, k + n@.len()) != n@,
        decreases last + 1 - i,
    {
        if matches_at(&h, &n, i) {
            return true;
        }
        i = i + 1;
    }
    false
}

/// Whether `s` begins with `prefix`.
pub fn starts_with(s: &str, prefix: &str) -> (r: bool)
    ensures
        r == starts_with_spec(s@, prefix@),
{
    let h = chars_of(s);
    let p = chars_of(prefix);
    if p.len() > h.len() {
        return false;
    }
    matches_at(&h, &p, 0)
}

/// Whether `s` ends with `suffix`.
pub fn ends_with(s: &str, suffix: &str) -> (r: bool)
    ensures
        r == ends_with_spec(s@, suffix@),
{
    let h = chars_of(s);
    let p = chars_of(suffix);
    if p.len() > h.len() {
        return false;
    }
    matches_at(&h, &p, h.len() - p.len())
}

/// Every occurrence of `from` replaced by `to`.
pub fn replace_char(s: &str, from: char, to: char) -> (r: String)
    ensures
        r@ == replace_char_spec(s@, from, to),
{
    let cs = chars_of(s);
    let mut out: Vec<char> = Vec::new();
    let mut i: usize = 0;
    while i < cs.len()
        invariant
            0 <= i <= cs@.len(),
            out@ == replace_char_spec(cs@.subrange(0, i as int), from, to),
        decreases cs@.len() - i,
    {
        let c = cs[i];
        if c == from {
            out.push(to);
        } else {
            out.push(c);
        }
        proof {
            assert(cs@.subrange(0, i + 1) =~= cs@.subrange(0, i as int).push(c));
            assert(out@ =~= replace_char_spec(cs@.subrange(0, i + 1), from, to));
        }
        i = i + 1;
    }
    assert(cs@.subrange(0, cs@.len() as int) =~= cs@);
    string_from_chars(&out)
}

/// `a` followed by `b`.
pub fn concat(a: &str, b: &str) -> (r: String)
    ensures
        r@ == a@ + b@,
{
    let mut s = String::from_str(a);
    s.append(b);
    s
}

/// The parts joined with `sep` between consecutive parts (`[String]::join`).
pub fn join(parts: &Vec<String>, sep: &str) -> (r: String)
    ensures
        r@ == join_spec(parts@.map_values(|p: String| p@), sep@),
{
    let ghost views = parts@.map_values(|p: String| p@);
    let mut out = String::new();
    let mut i: usize = 0;
    while i < parts.len()
        invariant
            0 <= i <= parts@.len(),
            views == parts@.map_values(|p: String| p@),
            out@ == join_spec(views.subrange(0, i as int), sep@),
        decreases parts@.len() - i,
    {
        proof {
            assert(views.subrange(0, i + 1).drop_last() =~= views.subrange(0, i as int));
        }
        if i > 0 {
            out.append(sep);
        }
        out.append(parts[i].as_str());
        i = i + 1;
    }
    assert(views.subrange(0, parts@.len() as int) =~= views);
    out
}

/// The character for decimal digit `d`.
fn digit_char(d: u64) -> (c: char)
    requires
        d < 10,
    ensures
        c == digit_char_spec(d as nat),
{
    if d == 0 { '0' }
    else if d == 1 { '1' }
    else if d == 2 { '2' }
    else if d == 3 { '3' }
    else if d == 4 { '4' }
    else if d == 5 { '5' }
    else if d == 6 { '6' }
    else if d == 7 { '7' }
    else if d == 8 { '8' }
    else { '9' }
}

/// Decimal digits of `n`, most significant first.
fn decimal_chars(n: u64) -> (r: Vec<char>)
    ensures
        r@ == decimal_spec(n as nat),
    decreases n,
{
    if n < 10 {
        let mut v: Vec<char> = Vec::new();
        v.push(digit_char(n));
        assert(v@ =~= seq![digit_char_spec(n as nat)]);
        v
    } else {
        let mut v = decimal_chars(n / 10);
        v.push(digit_char(n % 10));
        v
    }
}

/// The decimal representation of `n` (`n.to_string()`).
pub fn u64_to_decimal(n: u64) -> (r: String)
    ensures
        r@ == decimal_spec(n as nat),
{
    let v = decimal_chars(n);
    string_from_chars(&v)
}

/// The decimal representation of `n`, left-padded with zeros to `width` characters.
pub fn u64_to_padded_decimal(n: u64, width: usize) -> (r: String)
    ensures
        r@ == zero_pad_spec(decimal_spec(n as nat), width as nat),
{
    let digits = decimal_chars(n);
    let mut out: Vec<char> = Vec::new();
    if digits.len() < width {
        let pad = width - digits.len();
        let mut i: usize = 0;
        while i < pad
            invariant
                0 <= i <= pad,
                out@ == Seq::new(i as nat, |k: int| '0'),
            decreases pad - i,
        {
            out.push('0');
            proof {
                assert(out@ =~= Seq::new((i + 1) as nat, |k: int| '0'));
            }
            i = i + 1;
        }
    }
    let ghost prefix = out@;
    let mut k: usize = 0;
    while k < digits.len()
        invariant
            0 <= k <= digits@.len(),
            out@ == prefix + digits@.subrange(0, k as int),
        decreases digits@.len() - k,
    {
        out.push(digits[k]);
        proof {
            assert(out@ =~= prefix + digits@.subrange(0, k + 1));
        }
        k = k + 1;
    }
    proof {
        assert(digits@.subrange(0, digits@.len() as int) =~= digits@);
        if digits@.len() >= width {
            assert(prefix =~= Seq::<char>::empty());
            assert(out@ =~= digits@);
        }
    }
    string_from_chars(&out)
}

/// The index of the first occurrence of `c` in `s`, if any.
pub open spec fn first_index_spec(s: Seq<char>, c: char) -> Option<int>
    decreases s.len(),
{
    if s.len() == 0 {
        None
    } else if s[0] == c {
        Some(0)
    } else {
        match first_index_spec(s.drop_first(), c) {
            Some(i) => Some(i + 1),
            None => None,
        }
    }
}

/// `first_index_spec` finds the earliest occurrence, and finds none only when there is none.
pub proof fn lemma_first_index(s: Seq<char>, c: char)
    ensures
        first_index_spec(s, c) matches Some(i) ==> 0 <= i < s.len() && s[i] == c && forall|k: int|
            0 <= k < i ==> s[k] != c,
        first_index_spec(s, c) is None ==> forall|k: int| 0 <= k < s.len() ==> s[k] != c,
    decreases s.len(),
{
    if s.len() > 0 && s[0] != c {
        lemma_first_index(s.drop_first(), c);
        assert forall|k: int| 1 <= k < s.len() implies s[k] == s.drop_first()[k - 1] by {}
    }
}

/// The part of `s` before the first `c` and the part after it (`str::split_once`).
pub open spec fn split_once_spec(s: Seq<char>, c: char) -> Option<(Seq<char>, Seq<char>)> {
    match first_index_spec(s, c) {
        Some(i) => Some((s.subrange(0, i), s.subrange(i + 1, s.len() as int))),
        None => None,
    }
}

/// The second `c`-separated field of `s`, or the empty string when `s` holds no `c`
/// (`s.split(c).nth(1).unwrap_or_default()`).
pub open spec fn second_field_spec(s: Seq<char>, c: char) -> Seq<char> {
    match split_once_spec(s, c) {
        Some((_, rest)) => match first_index_spec(rest, c) {
            Some(j) => rest.subrange(0, j),
            None => rest,
        },
        None => Seq::empty(),
    }
}

/// The index of the first occurrence of `c` in `cs`.
pub fn find_char(cs: &Vec<char>, c: char) -> (r: Option<usize>)
    ensures
        r matches Some(i) ==> first_index_spec(cs@, c) == Some(i as int) && i < cs@.len(),
        r is None ==> first_index_spec(cs@, c) is None,
{
    let mut i: usize = 0;
    while i < cs.len()
        invariant
            0 <= i <= cs@.len(),
            forall|k: int| 0 <= k < i ==> cs@[k] != c,
        decreases cs@.len() - i,
    {
        if cs[i] == c {
            proof {
                lemma_first_index(cs@, c);
                match first_index_spec(cs@, c) {
                    Some(j) => {
                        assert(!(j < i));
                        assert(!(i < j));
                    },
                    None => {},
                }
            }
            return Some(i);
        }
        i = i + 1;
    }
    proof {
        lemma_first_index(cs@, c);
    }
    None
}

/// The characters `cs[from..to]`.
pub fn chars_slice(cs: &Vec<char>, from: usize, to: usize) -> (r: Vec<char>)
    requires
        from <= to <= cs@.len(),
    ensures
        r@ == cs@.subrange(from as int, to as int),
{
    let mut out: Vec<char> = Vec::new();
    let mut k: usize = from;
    while k < to
        invariant
            from <= k <= to <= cs@.len(),
            out@ == cs@.subrange(from as int, k as int),
        decreases to - k,
    {
        out.push(cs[k]);
        proof {
            assert(out@ =~= cs@.subrange(from as int, k + 1));
        }
        k = k + 1;
    }
    out
}

/// The second `c`-separated field of `s`, or the empty string.
pub fn second_field(s: &str, c: char) -> (r: String)
    ensures
        r@ == second_field_spec(s@, c),
{
    let cs = chars_of(s);
    match find_char(&cs, c) {
        None => String::new(),
        Some(i) => {
            proof {
                lemma_first_index(cs@, c);
            }
            let n = cs.len();
            let rest = chars_slice(&cs, i + 1, n);
            match find_char(&rest, c) {
                Some(j) => {
                    proof {
                        lemma_first_index(rest@, c);
                    }
                    let part = chars_slice(&rest, 0, j);
                    string_from_chars(&part)
                },
                None => string_from_chars(&rest),
            }
        },
    }
}

/// The parts of `s` around its first `c` (`str::split_once`).
pub fn split_once(s: &str, c: char) -> (r: Option<(String, String)>)
    ensures
        r matches Some((a, b)) ==> split_once_spec(s@, c) == Some((a@, b@)),
        r is None ==> split_once_spec(s@, c) is None,
{
    let cs = chars_of(s);
    match find_char(&cs, c) {
        None => None,
        Some(i) => {
            proof {
                lemma_first_index(cs@, c);
            }
            let before = chars_slice(&cs, 0, i);
            let n = cs.len();
            let after = chars_slice(&cs, i + 1, n);
            Some((string_from_chars(&before), string_from_chars(&after)))
        },
    }
}

/// A copy of every string in `v`.
pub fn clone_strings(v: &Vec<String>) -> (r: Vec<String>)
    ensures
        r@.map_values(|s: String| s@) == v@.map_values(|s: String| s@),
        r@.len() == v@.len(),
{
    let mut out: Vec<String> = Vec::new();
    let mut i: usize = 0;
    while i < v.len()
        invariant
            0 <= i <= v@.len(),
            out@.len() == i,
            forall|k: int| 0 <= k < i ==> #[trigger] out@[k]@ == v@[k]@,
        decreases v@.len() - i,
    {
        out.push(v[i].clone());
        i = i + 1;
    }
    assert(out@.map_values(|s: String| s@) =~= v@.map_values(|s: String| s@));
    out
}

/// The views of a sequence of strings.
pub open spec fn strings_view(v: Seq<String>) -> Seq<Seq<char>> {
    v.map_values(|s: String| s@)
}


/// `x` inserted after every text that sorts at or before it.
pub open spec fn insert_text_spec(s: Seq<Seq<char>>, x: Seq<char>) -> Seq<Seq<char>>
    decreases s.len(),
{
    if s.len() == 0 {
        seq![x]
    } else if crate::catalog::lex_le(s.last(), x) {
        s.push(x)
    } else {
        insert_text_spec(s.drop_last(), x).push(s.last())
    }
}

/// The texts in ascending order (`sort` / `sort_unstable` on strings).
pub open spec fn sort_texts_spec(s: Seq<Seq<char>>) -> Seq<Seq<char>>
    decreases s.len(),
{
    if s.len() == 0 {
        Seq::empty()
    } else {
        insert_text_spec(sort_texts_spec(s.drop_last()), s.last())
    }
}

proof fn lemma_insert_text_at(s: Seq<Seq<char>>, x: Seq<char>, j: int)
    requires
        0 <= j <= s.len(),
        forall|k: int| j <= k < s.len() ==> !crate::catalog::lex_le(#[trigger] s[k], x),
        j > 0 ==> crate::catalog::lex_le(s[j - 1], x),
    ensures
        insert_text_spec(s, x) == s.subrange(0, j) + seq![x] + s.subrange(j, s.len() as int),
    decreases s.len(),
{
    if s.len() == 0 {
        assert(seq![x] =~= s.subrange(0, j) + seq![x] + s.subrange(j, s.len() as int));
    } else if j == s.len() {
        assert(s.push(x) =~= s.subrange(0, j) + seq![x] + s.subrange(j, s.len() as int));
    } else {
        let init = s.drop_last();
        assert(!crate::catalog::lex_le(s[s.len() - 1], x));
        lemma_insert_text_at(init, x, j);
        assert(insert_text_spec(init, x).push(s.last()) =~= s.subrange(0, j) + seq![x] + s.subrange(
            j,
            s.len() as int,
        ));
    }
}

fn insert_text(v: &mut Vec<String>, item: String)
    ensures
        strings_view(final(v)@) == insert_text_spec(strings_view(old(v)@), item@),
{
    let ghost s = strings_view(v@);
    let mut j = v.len();
    while j > 0 && !crate::catalog::str_lex_le(v[j - 1].as_str(), item.as_str())
        invariant
            j <= v@.len(),
            s == strings_view(v@),
            forall|k: int| j <= k < s.len() ==> !crate::catalog::lex_le(#[trigger] s[k], item@),
        decreases j,
    {
        proof {
            assert(s[j - 1] == v@[j - 1]@);
        }
        j = j - 1;
    }
    proof {
        if j > 0 {
            assert(s[j - 1] == v@[j - 1]@);
        }
        lemma_insert_text_at(s, item@, j as int);
    }
    v.insert(j, item);
    proof {
        assert(strings_view(v@) =~= s.subrange(0, j as int) + seq![item@] + s.subrange(j as int, s.len() as int));
    }
}

/// The strings in ascending order.
pub fn sort_strings(items: Vec<String>) -> (r: Vec<String>)
    ensures
        strings_view(r@) == sort_texts_spec(strings_view(items@)),
{
    let ghost s = strings_view(items@);
    let mut out: Vec<String> = Vec::new();
    let mut rest = items;
    let n = rest.len();
    let mut i: usize = 0;
    assert(s.subrange(0, n as int) =~= s);
    while i < n
        invariant
            0 <= i <= n,
            n == s.len(),
            strings_view(rest@) == s.subrange(i as int, n as int),
            rest@.len() == n - i,
            strings_view(out@) == sort_texts_spec(s.subrange(0, i as int)),
        decreases n - i,
    {
        let ghost before = rest@;
        proof {
            assert(strings_view(before)[0] == before[0]@);
        }
        let e = rest.remove(0);
        proof {
            assert forall|m: int| 0 <= m < rest@.len() implies #[trigger] strings_view(rest@)[m] == s[i + 1 + m] by {
                assert(strings_view(before)[m + 1] == before[m + 1]@);
            }
            assert(strings_view(rest@) =~= s.subrange(i + 1, n as int));
            assert(s.subrange(0, i + 1).drop_last() =~= s.subrange(0, i as int));
        }
        insert_text(&mut out, e);
        i = i + 1;
    }
    out
}

} // verus!
