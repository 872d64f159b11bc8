//! Character-sequence primitives shared by every renderer.

use vstd::prelude::*;

verus! {

/// `n` copies of `s`, one after another.
pub open spec fn repeat_seq(s: Seq<char>, n: nat) -> Seq<char>
    decreases n,
{
    if n == 0 {
        Seq::empty()
    } else {
        repeat_seq(s, (n - 1) as nat) + s
    }
}

/// `n` blanks.
pub open spec fn spaces(n: nat) -> Seq<char> {
    repeat_seq(seq![' '], n)
}

/// The decimal digit for `d < 10`.
pub open spec fn digit_char(d: nat) -> char {
    if d == 0 { '0' }
    else if d == 1 { '1' }
    else if d == 2 { '2' }
    else if d == 3 { '3' }
    else if d == 4 { '4' }
    else if d == 5 { '5' }
    else if d == 6 { '6' }
    else if d == 7 { '7' }
    else if d == 8 { '8' }
    else { '9' }
}

/// Decimal rendering of a natural number, without leading zeros.
pub open spec fn decimal(n: nat) -> Seq<char>
    decreases n,
{
    if n < 10 {
        seq![digit_char(n)]
    } else {
        decimal(n / 10).push(digit_char(n % 10))
    }
}

/// `needle` occurs in `hay` starting at position `i`.
pub open spec fn occurs_at(hay: Seq<char>, needle: Seq<char>, i: int) -> bool {
    0 <= i && i + needle.len() <= hay.len() && hay.subrange(i, i + needle.len()) == needle
}

/// `needle` occurs somewhere in `hay`.
pub open spec fn seq_contains(hay: Seq<char>, needle: Seq<char>) -> bool {
    exists|i: int| occurs_at(hay, needle, i)
}

/// ASCII lower-casing of one character; other characters are unchanged.
pub open spec fn lower_char(c: char) -> char {
    if 'A' <= c && c <= 'Z' {
        (((c as u8) + 32) as u8) as char
    } else {
        c
    }
}

/// ASCII lower-casing of a whole sequence.
pub open spec fn ascii_lower(s: Seq<char>) -> Seq<char> {
    Seq::new(s.len(), |i: int| lower_char(s[i]))
}

/// Appends one character to a string (`String::push`).
#[verifier::external_body]
pub fn push_char(s: &mut String, c: char)
    ensures
        final(s)@ == old(s)@.push(c),
{
    s.push(c);
}

/// The characters of a string slice.
pub fn str_chars(s: &str) -> (r: Vec<char>)
    ensures
        r@ == s@,
{
    let n = s.unicode_len();
    let mut r: Vec<char> = Vec::new();
    let mut i: usize = 0;
    while i < n
        invariant
            n == s@.len(),
            i <= n,
            r@ == s@.subrange(0, i as int),
        decreases n - i,
    {
        let c = s.get_char(i);
        r.push(c);
        i = i + 1;
    }
    r
}

/// A string made of the given characters.
pub fn string_from_chars(v: &[char]) -> (r: String)
    ensures
        r@ == v@,
{
    let mut r = String::new();
    let mut i: usize = 0;
    while i < v.len()
        invariant
            i <= v.len(),
            r@ == v@.subrange(0, i as int),
        decreases v.len() - i,
    {
        push_char(&mut r, v[i]);
        i = i + 1;
    }
    r
}

/// An owned copy of a string slice.
pub fn owned(s: &str) -> (r: String)
    ensures
        r@ == s@,
{
    String::from_str(s)
}

/// `a` followed by `b`.
pub fn concat2(a: &str, b: &str) -> (r: String)
    ensures
        r@ == a@ + b@,
{
    let mut r = String::from_str(a);
    r.append(b);
    r
}

/// `a`, `b` and `c` one after another.
pub fn concat3(a: &str, b: &str, c: &str) -> (r: String)
    ensures
        r@ == a@ + b@ + c@,
{
    let mut r = String::from_str(a);
    r.append(b);
    r.append(c);
    r
}

/// `n` copies of `s`.
pub fn repeat_str(s: &str, n: usize) -> (r: String)
    ensures
        r@ == repeat_seq(s@, n as nat),
{
    let mut r = String::new();
    let mut i: usize = 0;
    while i < n
        invariant
            i <= n,
            r@ == repeat_seq(s@, i as nat),
        decreases n - i,
    {
        r.append(s);
        i = i + 1;
    }
    r
}

/// `n` blanks.
pub fn spaces_str(n: usize) -> (r: String)
    ensures
        r@ == spaces(n as nat),
{
    let mut r = String::new();
    let mut i: usize = 0;
    while i < n
        invariant
            i <= n,
            r@ == spaces(i as nat),
        decreases n - i,
    {
        push_char(&mut r, ' ');
        i = i + 1;
    }
    r
}

fn digit_of(d: usize) -> (c: char)
    requires
        d < 10,
    ensures
        c == digit_char(d as nat),
{
    if d == 0 { '0' }
    else if d == 1 { '1' }
    else if d == 2 { '2' }
    else if d == 3 { '3' }
    else if d == 4 { '4' }
    else if d == 5 { '5' }
    else if d == 6 { '6' }
    else if d == 7 { '7' }
    else if d == 8 { '8' }
    else { '9' }
}

/// Decimal rendering of `n` (what `n.to_string()` gives).
pub fn usize_to_string(n: usize) -> (r: String)
    ensures
        r@ == decimal(n as nat),
    decreases n,
{
    if n < 10 {
        let mut r = String::new();
        push_char(&mut r, digit_of(n));
        r
    } else {
        let mut r = usize_to_string(n / 10);
        push_char(&mut r, digit_of(n % 10));
        r
    }
}

/// Whether `needle` occurs at position `i` of `hay`.
pub fn chars_occur_at(hay: &[char], needle: &[char], i: usize) -> (b: bool)
    ensures
        b == occurs_at(hay@, needle@, i as int),
{
    if i > hay.len() || needle.len() > hay.len() - i {
        return false;
    }
    let mut k: usize = 0;
    while k < needle.len()
        invariant
            i + needle.len() <= hay.len(),
            k <= needle.len(),
            forall|j: int| 0 <= j < k ==> hay@[i + j] == needle@[j],
        decreases needle.len() - k,
    {
        if hay[i + k] != needle[k] {
            assert(hay@.subrange(i as int, i + needle.len())[k as int] != needle@[k as int]);
            return false;
        }
        k = k + 1;
    }
    assert(hay@.subrange(i as int, i + needle@.len()) =~= needle@);
    true
}

/// First position at or after `i` where `needle` occurs in `hay`.
pub open spec fn find_from(hay: Seq<char>, needle: Seq<char>, i: int) -> Option<int>
    decreases hay.len() + 1 - i,
{
    if i < 0 || i > hay.len() {
        None
    } else if occurs_at(hay, needle, i) {
        Some(i)
    } else {
        find_from(hay, needle, i + 1)
    }
}

/// First position where `needle` occurs in `hay`.
pub open spec fn find_spec(hay: Seq<char>, needle: Seq<char>) -> Option<int> {
    find_from(hay, needle, 0)
}

/// `find_from` finds an occurrence exactly when there is one at or after `i`.
pub proof fn lemma_find_from(hay: Seq<char>, needle: Seq<char>, i: int)
    requires
        0 <= i,
    ensures
        match find_from(hay, needle, i) {
            Some(k) => i <= k && occurs_at(hay, needle, k)
                && forall|j: int| i <= j < k ==> !occurs_at(hay, needle, j),
            None => forall|j: int| i <= j ==> !occurs_at(hay, needle, j),
        },
    decreases hay.len() + 1 - i,
{
    if i > hay.len() {
    } else if occurs_at(hay, needle, i) {
    } else {
        lemma_find_from(hay, needle, i + 1);
    }
}

/// First position at or after `from` where `needle` occurs in `hay`.
pub fn chars_find_from(hay: &[char], needle: &[char], from: usize) -> (r: Option<usize>)
    ensures
        match r {
            Some(i) => find_from(hay@, needle@, from as int) == Some(i as int),
            None => find_from(hay@, needle@, from as int) is None,
        },
{
    let mut i: usize = from;
    while i < hay.len()
        invariant
            from <= i,
            find_from(hay@, needle@, from as int) == find_from(hay@, needle@, i as int),
        decreases hay.len() - i,
    {
        if chars_occur_at(hay, needle, i) {
            return Some(i);
        }
        i = i + 1;
    }
    if i == hay.len() && chars_occur_at(hay, needle, i) {
        return Some(i);
    }
    if i == hay.len() {
        assert(find_from(hay@, needle@, i + 1) is None);
    }
    None
}

/// Whether `needle` occurs in `hay`.
pub fn str_contains(hay: &str, needle: &str) -> (b: bool)
    ensures
        b == seq_contains(hay@, needle@),
{
    let h = str_chars(hay);
    let n = str_chars(needle);
    proof {
        lemma_find_from(hay@, needle@, 0);
    }
    match chars_find_from(h.as_slice(), n.as_slice(), 0) {
        Some(_) => true,
        None => false,
    }
}

/// What Unicode lower-casing (`str::to_lowercase`) makes of a text.
pub uninterp spec fn unicode_lower(s: Seq<char>) -> Seq<char>;

/// What Unicode upper-casing (`str::to_uppercase`) makes of a text.
pub uninterp spec fn unicode_upper(s: Seq<char>) -> Seq<char>;

/// std's `str::to_lowercase`: Unicode lower-casing, whose result is a
/// function of the text alone and is named `unicode_lower`; the casing
/// tables themselves are not stated.
#[verifier::external_body]
pub(crate) fn to_lowercase(s: &str) -> (r: String)
    ensures
        r@ == unicode_lower(s@),
{
    s.to_lowercase()
}

/// std's `str::to_uppercase`: Unicode upper-casing, whose result is a
/// function of the text alone and is named `unicode_upper`; the casing
/// tables themselves are not stated.
#[verifier::external_body]
pub(crate) fn to_uppercase(s: &str) -> (r: String)
    ensures
        r@ == unicode_upper(s@),
{
    s.to_uppercase()
}

/// ASCII lower-casing (`str::to_ascii_lowercase`).
pub fn to_ascii_lowercase(s: &str) -> (r: String)
    ensures
        r@ == ascii_lower(s@),
{
    let cs = str_chars(s);
    let mut r = String::new();
    let mut i: usize = 0;
    while i < cs.len()
        invariant
            cs@ == s@,
            i <= cs.len(),
            r@ == ascii_lower(s@).subrange(0, i as int),
        decreases cs.len() - i,
    {
        let c = cs[i];
        let l = if 'A' <= c && c <= 'Z' { ((c as u8) + 32) as char } else { c };
        push_char(&mut r, l);
        i = i + 1;
    }
    r
}

/// Unicode white space (`char::is_whitespace`).
pub open spec fn is_ws(c: char) -> bool {
    ('\t' <= c && c <= '\r') || c == ' ' || c == '\u{85}' || c == '\u{a0}'
        || c == '\u{1680}' || ('\u{2000}' <= c && c <= '\u{200a}') || c == '\u{2028}'
        || c == '\u{2029}' || c == '\u{202f}' || c == '\u{205f}' || c == '\u{3000}'
}

/// Whether `c` is white space (`char::is_whitespace`).
pub fn is_whitespace(c: char) -> (b: bool)
    ensures
        b == is_ws(c),
{
    ('\t' <= c && c <= '\r') || c == ' ' || c == '\u{85}' || c == '\u{a0}'
        || c == '\u{1680}' || ('\u{2000}' <= c && c <= '\u{200a}') || c == '\u{2028}'
        || c == '\u{2029}' || c == '\u{202f}' || c == '\u{205f}' || c == '\u{3000}'
}

/// Number of white-space characters at the start of `s`.
pub open spec fn leading_ws(s: Seq<char>) -> nat
    decreases s.len(),
{
    if s.len() > 0 && is_ws(s[0]) {
        1 + leading_ws(s.drop_first())
    } else {
        0
    }
}

/// Number of white-space characters at the end of `s`.
pub open spec fn trailing_ws(s: Seq<char>) -> nat
    decreases s.len(),
{
    if s.len() > 0 && is_ws(s.last()) {
        1 + trailing_ws(s.drop_last())
    } else {
        0
    }
}

pub proof fn lemma_leading_ws_bound(s: Seq<char>)
    ensures
        leading_ws(s) <= s.len(),
    decreases s.len(),
{
    if s.len() > 0 && is_ws(s[0]) {
        lemma_leading_ws_bound(s.drop_first());
    }
}

pub proof fn lemma_trailing_ws_bound(s: Seq<char>)
    ensures
        trailing_ws(s) <= s.len(),
    decreases s.len(),
{
    if s.len() > 0 && is_ws(s.last()) {
        lemma_trailing_ws_bound(s.drop_last());
    }
}

/// `s` without leading white space (`str::trim_start`).
pub open spec fn trim_start_spec(s: Seq<char>) -> Seq<char> {
    s.skip(leading_ws(s) as int)
}

/// `s` without trailing white space (`str::trim_end`).
pub open spec fn trim_end_spec(s: Seq<char>) -> Seq<char> {
    s.take(s.len() - trailing_ws(s))
}

/// `s` without white space at either end (`str::trim`).
pub open spec fn trim_spec(s: Seq<char>) -> Seq<char> {
    trim_end_spec(trim_start_spec(s))
}

fn leading_ws_count(cs: &[char]) -> (n: usize)
    ensures
        n == leading_ws(cs@),
{
    let mut i: usize = 0;
    assert(cs@.skip(0) =~= cs@);
    while i < cs.len() && is_whitespace(cs[i])
        invariant
            i <= cs.len(),
            leading_ws(cs@) == i + leading_ws(cs@.skip(i as int)),
        decreases cs.len() - i,
    {
        assert(cs@.skip(i as int).drop_first() =~= cs@.skip(i + 1));
        i = i + 1;
    }
    i
}

fn trailing_ws_count(cs: &[char]) -> (n: usize)
    ensures
        n == trailing_ws(cs@),
{
    let mut i: usize = cs.len();
    assert(cs@.take(cs@.len() as int) =~= cs@);
    while i > 0 && is_whitespace(cs[i - 1])
        invariant
            i <= cs.len(),
            trailing_ws(cs@) == (cs.len() - i) + trailing_ws(cs@.take(i as int)),
        decreases i,
    {
        assert(cs@.take(i as int).drop_last() =~= cs@.take(i - 1));
        i = i - 1;
    }
    cs.len() - i
}

/// `s` without leading white space.
pub fn trim_start(s: &str) -> (r: &str)
    ensures
        r@ == trim_start_spec(s@),
{
    let cs = str_chars(s);
    let k = leading_ws_count(cs.as_slice());
    proof { lemma_leading_ws_bound(s@); }
    s.substring_char(k, cs.len())
}

/// `s` without trailing white space.
pub fn trim_end(s: &str) -> (r: &str)
    ensures
        r@ == trim_end_spec(s@),
{
    let cs = str_chars(s);
    let k = trailing_ws_count(cs.as_slice());
    proof { lemma_trailing_ws_bound(s@); }
    let r = s.substring_char(0, cs.len() - k);
    assert(r@ =~= trim_end_spec(s@));
    r
}

/// `s` without white space at either end.
pub fn trim(s: &str) -> (r: &str)
    ensures
        r@ == trim_spec(s@),
{
    trim_end(trim_start(s))
}

/// Whether `s` starts with `p`.
pub fn starts_with(s: &str, p: &str) -> (b: bool)
    ensures
        b == p@.is_prefix_of(s@),
{
    let cs = str_chars(s);
    let ps = str_chars(p);
    let r = chars_occur_at(cs.as_slice(), ps.as_slice(), 0);
    assert(r == occurs_at(s@, p@, 0));
    if r {
        assert(s@.subrange(0, p@.len() as int) == p@);
        assert forall|i: int| 0 <= i < p@.len() implies p@[i] == s@[i] by {
            assert(s@.subrange(0, p@.len() as int)[i] == s@[i]);
        }
    } else if ps.len() <= cs.len() {
        assert(!(s@.subrange(0, p@.len() as int) =~= p@));
    }
    r
}

/// `s` without the prefix `p`, if it starts with it (`str::strip_prefix`).
pub fn strip_prefix<'a>(s: &'a str, p: &str) -> (r: Option<&'a str>)
    ensures
        match r {
            Some(rest) => p@.is_prefix_of(s@) && rest@ == s@.skip(p@.len() as int),
            None => !p@.is_prefix_of(s@),
        },
{
    if starts_with(s, p) {
        let n = s.unicode_len();
        let k = p.unicode_len();
        Some(s.substring_char(k, n))
    } else {
        None
    }
}

/// `s` with every leading repetition of `p` removed (`str::trim_start_matches`).
pub open spec fn strip_all_prefix(s: Seq<char>, p: Seq<char>) -> Seq<char>
    decreases s.len(),
{
    if p.len() > 0 && p.is_prefix_of(s) {
        strip_all_prefix(s.skip(p.len() as int), p)
    } else {
        s
    }
}

/// `s` with every trailing repetition of `p` removed (`str::trim_end_matches`).
pub open spec fn strip_all_suffix(s: Seq<char>, p: Seq<char>) -> Seq<char>
    decreases s.len(),
{
    if p.len() > 0 && p.is_suffix_of(s) {
        strip_all_suffix(s.take(s.len() - p.len()), p)
    } else {
        s
    }
}

/// First position of `needle` in `s` (`str::find`, counted in characters).
pub fn find(s: &str, needle: &str) -> (r: Option<usize>)
    ensures
        match r {
            Some(i) => find_spec(s@, needle@) == Some(i as int),
            None => find_spec(s@, needle@) is None,
        },
{
    let h = str_chars(s);
    let n = str_chars(needle);
    chars_find_from(h.as_slice(), n.as_slice(), 0)
}

/// Removes every leading repetition of `p` from `s`.
pub fn trim_start_matches<'a>(s: &'a str, p: &str) -> (r: &'a str)
    ensures
        r@ == strip_all_prefix(s@, p@),
{
    let n = s.unicode_len();
    let k = p.unicode_len();
    if k == 0 {
        return s;
    }
    let cs = str_chars(s);
    let ps = str_chars(p);
    let mut i: usize = 0;
    assert(s@.skip(0) =~= s@);
    while i <= n && k <= n - i && chars_occur_at(cs.as_slice(), ps.as_slice(), i)
        invariant
            n == s@.len(),
            k == p@.len(),
            k > 0,
            cs@ == s@,
            ps@ == p@,
            i <= n,
            strip_all_prefix(s@, p@) == strip_all_prefix(s@.skip(i as int), p@),
        decreases n - i,
    {
        let ghost rest = s@.skip(i as int);
        assert(p@.is_prefix_of(rest)) by {
            assert forall|j: int| 0 <= j < p@.len() implies p@[j] == rest[j] by {
                assert(s@.subrange(i as int, i + p@.len())[j] == s@[i + j]);
            }
        }
        assert(rest.skip(k as int) =~= s@.skip(i + k));
        i = i + k;
    }
    let ghost rest = s@.skip(i as int);
    proof {
        if k <= n - i && p@.is_prefix_of(rest) {
            assert(s@.subrange(i as int, i + p@.len()) =~= p@) by {
                assert forall|j: int| 0 <= j < p@.len() implies s@.subrange(i as int, i + p@.len())[j] == p@[j] by {
                    assert(rest[j] == s@[i + j]);
                }
            }
        }
    }
    let r = s.substring_char(i, n);
    assert(r@ =~= rest);
    r
}

/// Removes every trailing repetition of `p` from `s`.
pub fn trim_end_matches<'a>(s: &'a str, p: &str) -> (r: &'a str)
    ensures
        r@ == strip_all_suffix(s@, p@),
{
    let n = s.unicode_len();
    let k = p.unicode_len();
    if k == 0 {
        return s;
    }
    let cs = str_chars(s);
    let ps = str_chars(p);
    let mut e: usize = n;
    assert(s@.take(n as int) =~= s@);
    while k <= e && chars_occur_at(cs.as_slice(), ps.as_slice(), e - k)
        invariant
            n == s@.len(),
            k == p@.len(),
            k > 0,
            cs@ == s@,
            ps@ == p@,
            e <= n,
            strip_all_suffix(s@, p@) == strip_all_suffix(s@.take(e as int), p@),
        decreases e,
    {
        let ghost cur = s@.take(e as int);
        assert(p@.is_suffix_of(cur)) by {
            assert forall|j: int| 0 <= j < p@.len() implies p@[j] == cur[cur.len() - p@.len() + j] by {
                assert(s@.subrange(e - k, e - k + p@.len())[j] == s@[e - k + j]);
            }
        }
        assert(cur.take(cur.len() - p@.len()) =~= s@.take(e - k));
        e = e - k;
    }
    let ghost cur = s@.take(e as int);
    proof {
        if k <= e && p@.is_suffix_of(cur) {
            assert(s@.subrange(e - k, e - k + p@.len()) =~= p@) by {
                assert forall|j: int| 0 <= j < p@.len() implies s@.subrange(e - k, e - k + p@.len())[j] == p@[j] by {
                    assert(cur[cur.len() - p@.len() + j] == s@[e - k + j]);
                }
            }
        }
    }
    let r = s.substring_char(0, e);
    assert(r@ =~= cur);
    r
}

/// Length in bytes of the UTF-8 encoding of `s` (`str::len`).
pub open spec fn byte_len(s: Seq<char>) -> nat {
    vstd::utf8::encode_utf8(s).len()
}

/// Byte length of a string slice.
pub fn str_byte_len(s: &str) -> (n: usize)
    ensures
        n == byte_len(s@) as usize,
{
    s.len()
}

/// Position of the first `c` in `s`.
pub open spec fn char_pos(s: Seq<char>, c: char) -> Option<int>
    decreases s.len(),
{
    if s.len() == 0 {
        None
    } else if s[0] == c {
        Some(0)
    } else {
        match char_pos(s.drop_first(), c) {
            Some(i) => Some(i + 1),
            None => None,
        }
    }
}

/// `char_pos` finds the first occurrence.
pub proof fn lemma_char_pos(s: Seq<char>, c: char)
    ensures
        match char_pos(s, c) {
            Some(i) => 0 <= i < s.len() && s[i] == c && forall|j: int| 0 <= j < i ==> s[j] != c,
            None => forall|j: int| 0 <= j < s.len() ==> s[j] != c,
        },
    decreases s.len(),
{
    if s.len() > 0 && s[0] != c {
        lemma_char_pos(s.drop_first(), c);
        match char_pos(s.drop_first(), c) {
            Some(i) => {
                assert forall|j: int| 0 <= j < i + 1 implies s[j] != c by {
                    if j > 0 { assert(s[j] == s.drop_first()[j - 1]); }
                }
            },
            None => {
                assert forall|j: int| 0 <= j < s.len() implies s[j] != c by {
                    if j > 0 { assert(s[j] == s.drop_first()[j - 1]); }
                }
            },
        }
    }
}

/// The first occurrence is determined by the characters before it.
pub proof fn lemma_char_pos_at(s: Seq<char>, c: char, i: int)
    requires
        0 <= i <= s.len(),
        forall|j: int| 0 <= j < i ==> s[j] != c,
        i == s.len() || s[i] == c,
    ensures
        char_pos(s, c) == if i == s.len() { None } else { Some(i) },
    decreases s.len(),
{
    if s.len() > 0 && s[0] != c {
        assert forall|j: int| 0 <= j < i - 1 implies s.drop_first()[j] != c by {
            assert(s.drop_first()[j] == s[j + 1]);
        }
        lemma_char_pos_at(s.drop_first(), c, i - 1);
    }
}

/// The pieces of `s` between occurrences of `c` (`str::split`).
pub open spec fn split_spec(s: Seq<char>, c: char) -> Seq<Seq<char>>
    decreases s.len(),
{
    match char_pos(s, c) {
        Some(i) => {
            if 0 <= i < s.len() {
                seq![s.take(i)] + split_spec(s.skip(i + 1), c)
            } else {
                seq![s]
            }
        },
        None => seq![s],
    }
}

/// `s` without one trailing carriage return.
pub open spec fn strip_cr(s: Seq<char>) -> Seq<char> {
    if s.len() > 0 && s.last() == '\r' { s.drop_last() } else { s }
}

/// The lines of `s` (`str::lines`): pieces between `\n`, no final empty
/// piece, and each piece that a `\n` ends without a trailing `\r` (a last
/// line that no `\n` ends keeps it).
pub open spec fn lines_spec(s: Seq<char>) -> Seq<Seq<char>> {
    let raw = split_spec(s, '\n');
    let kept = if raw.len() > 0 && raw.last().len() == 0 { raw.drop_last() } else { raw };
    Seq::new(kept.len(), |i: int| if i < raw.len() - 1 { strip_cr(kept[i]) } else { kept[i] })
}

/// Splits `s` at every `c`.
pub fn split_char(s: &str, c: char) -> (r: Vec<String>)
    ensures
        r@.map_values(|x: String| x@) == split_spec(s@, c),
{
    let cs = str_chars(s);
    let mut pieces: Vec<String> = Vec::new();
    let mut start: usize = 0;
    let mut i: usize = 0;
    assert(s@.skip(0) =~= s@);
    while i < cs.len()
        invariant
            cs@ == s@,
            start <= i <= cs.len(),
            forall|j: int| start <= j < i ==> s@[j] != c,
            pieces@.map_values(|x: String| x@) + split_spec(s@.skip(start as int), c) == split_spec(s@, c),
        decreases cs.len() - i,
    {
        if cs[i] == c {
            let piece = string_from_chars(&cs.as_slice()[start..i]);
            let ghost rest = s@.skip(start as int);
            proof {
                lemma_char_pos_at(rest, c, i - start);
                assert(rest.take(i - start) =~= s@.subrange(start as int, i as int));
                assert(rest.skip(i - start + 1) =~= s@.skip(i + 1));
            }
            assert(piece@ =~= s@.subrange(start as int, i as int));
            let ghost old_pieces = pieces@;
            pieces.push(piece);
            assert(pieces@.map_values(|x: String| x@) =~= old_pieces.map_values(|x: String| x@).push(s@.subrange(start as int, i as int)));
            start = i + 1;
        }
        i = i + 1;
    }
    let piece = string_from_chars(&cs.as_slice()[start..cs.len()]);
    let ghost rest = s@.skip(start as int);
    proof {
        lemma_char_pos_at(rest, c, rest.len() as int);
    }
    assert(piece@ =~= rest);
    let ghost old_pieces = pieces@;
    pieces.push(piece);
    assert(pieces@.map_values(|x: String| x@) =~= old_pieces.map_values(|x: String| x@).push(rest));
    assert(pieces@.map_values(|x: String| x@) =~= split_spec(s@, c));
    pieces
}

/// The lines of `s`.
pub fn lines(s: &str) -> (r: Vec<String>)
    ensures
        r@.map_values(|x: String| x@) == lines_spec(s@),
{
    let raw = split_char(s, '\n');
    let ghost rawv = raw@.map_values(|x: String| x@);
    let mut n = raw.len();
    if n > 0 && raw[n - 1].as_str().unicode_len() == 0 {
        n = n - 1;
    }
    let ghost kept = if rawv.len() > 0 && rawv.last().len() == 0 { rawv.drop_last() } else { rawv };
    assert(kept.len() == n);
    let mut out: Vec<String> = Vec::new();
    let mut i: usize = 0;
    while i < n
        invariant
            n == kept.len(),
            n <= raw@.len(),
            rawv == raw@.map_values(|x: String| x@),
            forall|k: int| 0 <= k < n ==> kept[k] == rawv[k],
            i <= n,
            out@.len() == i,
            forall|k: int| 0 <= k < i ==> #[trigger] out@[k]@ == if k < rawv.len() - 1 { strip_cr(kept[k]) } else { kept[k] },
        decreases n - i,
    {
        let cs = str_chars(raw[i].as_str());
        let m = cs.len();
        let line = if i + 1 < raw.len() && m > 0 && cs[m - 1] == '\r' {
            string_from_chars(&cs.as_slice()[0..m - 1])
        } else {
            string_from_chars(cs.as_slice())
        };
        assert(rawv[i as int] == raw@[i as int]@);
        assert(line@ =~= if i < rawv.len() - 1 { strip_cr(kept[i as int]) } else { kept[i as int] });
        out.push(line);
        i = i + 1;
    }
    assert(out@.map_values(|x: String| x@) =~= lines_spec(s@));
    out
}

/// Lexicographic order on character sequences (by code point), the order
/// of `str`'s `Ord`.
pub open spec fn lex_le(a: Seq<char>, b: Seq<char>) -> bool
    decreases a.len(),
{
    if a.len() == 0 {
        true
    } else if b.len() == 0 {
        false
    } else if a[0] != b[0] {
        (a[0] as int) < (b[0] as int)
    } else {
        lex_le(a.drop_first(), b.drop_first())
    }
}

/// Strict lexicographic order.
pub open spec fn lex_lt(a: Seq<char>, b: Seq<char>) -> bool {
    lex_le(a, b) && a != b
}

pub proof fn lemma_lex_total(a: Seq<char>, b: Seq<char>)
    ensures
        lex_le(a, b) || lex_le(b, a),
    decreases a.len(),
{
    if a.len() > 0 && b.len() > 0 {
        if a[0] == b[0] {
            lemma_lex_total(a.drop_first(), b.drop_first());
        } else {
            assert((a[0] as int) != (b[0] as int));
        }
    }
}

pub proof fn lemma_lex_antisym(a: Seq<char>, b: Seq<char>)
    requires
        lex_le(a, b),
        lex_le(b, a),
    ensures
        a == b,
    decreases a.len(),
{
    if a.len() == 0 {
        assert(b.len() == 0);
        assert(a =~= b);
    } else {
        assert(b.len() > 0);
        assert(a[0] == b[0]) by {
            if a[0] != b[0] {
                assert((a[0] as int) < (b[0] as int));
                assert((b[0] as int) < (a[0] as int));
            }
        }
        lemma_lex_antisym(a.drop_first(), b.drop_first());
        assert(a =~= seq![a[0]] + a.drop_first());
        assert(b =~= seq![b[0]] + b.drop_first());
    }
}

pub proof fn lemma_lex_trans(a: Seq<char>, b: Seq<char>, c: Seq<char>)
    requires
        lex_le(a, b),
        lex_le(b, c),
    ensures
        lex_le(a, c),
    decreases a.len(),
{
    if a.len() > 0 && b.len() > 0 && c.len() > 0 && a[0] == b[0] && b[0] == c[0] {
        lemma_lex_trans(a.drop_first(), b.drop_first(), c.drop_first());
    }
}

pub proof fn lemma_lex_refl(a: Seq<char>)
    ensures
        lex_le(a, a),
    decreases a.len(),
{
    if a.len() > 0 {
        lemma_lex_refl(a.drop_first());
    }
}

/// Whether `a` sorts before or equal to `b` (`a <= b` for `str`).
pub fn str_le(a: &str, b: &str) -> (r: bool)
    ensures
        r == lex_le(a@, b@),
{
    let x = str_chars(a);
    let y = str_chars(b);
    let mut i: usize = 0;
    assert(a@.skip(0) =~= a@);
    assert(b@.skip(0) =~= b@);
    while i < x.len() && i < y.len() && x[i] == y[i]
        invariant
            x@ == a@,
            y@ == b@,
            i <= x.len(),
            i <= y.len(),
            lex_le(a@, b@) == lex_le(a@.skip(i as int), b@.skip(i as int)),
        decreases x.len() - i,
    {
        assert(a@.skip(i as int).drop_first() =~= a@.skip(i + 1));
        assert(b@.skip(i as int).drop_first() =~= b@.skip(i + 1));
        i = i + 1;
    }
    if i == x.len() {
        true
    } else if i == y.len() {
        false
    } else {
        x[i] < y[i]
    }
}

/// Whether two strings are equal.
pub fn str_eq(a: &str, b: &str) -> (r: bool)
    ensures
        r == (a@ == b@),
{
    let x = str_chars(a);
    let y = str_chars(b);
    if x.len() != y.len() {
        return false;
    }
    let mut i: usize = 0;
    while i < x.len()
        invariant
            x@ == a@,
            y@ == b@,
            x.len() == y.len(),
            i <= x.len(),
            forall|k: int| 0 <= k < i ==> a@[k] == b@[k],
        decreases x.len() - i,
    {
        if x[i] != y[i] {
            return false;
        }
        i = i + 1;
    }
    assert(a@ =~= b@);
    true
}

/// `s` followed by blanks up to `w` characters (`{:<w}`).
pub open spec fn pad_end_spec(s: Seq<char>, w: nat) -> Seq<char> {
    if s.len() >= w { s } else { s + spaces((w - s.len()) as nat) }
}

/// Blanks then `s`, up to `w` characters (`{:>w}`).
pub open spec fn pad_start_spec(s: Seq<char>, w: nat) -> Seq<char> {
    if s.len() >= w { s } else { spaces((w - s.len()) as nat) + s }
}

/// Left-aligns `s` in a field of `w` characters.
pub fn pad_end(s: &str, w: usize) -> (r: String)
    ensures
        r@ == pad_end_spec(s@, w as nat),
{
    let n = s.unicode_len();
    if n >= w {
        owned(s)
    } else {
        let pad = spaces_str(w - n);
        concat2(s, pad.as_str())
    }
}

/// Right-aligns `s` in a field of `w` characters.
pub fn pad_start(s: &str, w: usize) -> (r: String)
    ensures
        r@ == pad_start_spec(s@, w as nat),
{
    let n = s.unicode_len();
    if n >= w {
        owned(s)
    } else {
        let pad = spaces_str(w - n);
        concat2(pad.as_str(), s)
    }
}

/// The pieces one after another.
pub open spec fn flatten(parts: Seq<Seq<char>>) -> Seq<char>
    decreases parts.len(),
{
    if parts.len() == 0 {
        Seq::empty()
    } else {
        flatten(parts.drop_last()) + parts.last()
    }
}

/// Appending a piece appends its text.
pub proof fn lemma_flatten_push(parts: Seq<Seq<char>>, x: Seq<char>)
    ensures
        flatten(parts.push(x)) == flatten(parts) + x,
{
    assert(parts.push(x).drop_last() =~= parts);
}

/// The parts joined by `sep` (`[..].join(sep)`).
pub open spec fn join_with(parts: Seq<Seq<char>>, sep: Seq<char>) -> Seq<char>
    decreases parts.len(),
{
    if parts.len() == 0 {
        Seq::empty()
    } else if parts.len() == 1 {
        parts[0]
    } else {
        join_with(parts.drop_last(), sep) + sep + parts.last()
    }
}

/// Stripping leading repetitions leaves a suffix.
pub proof fn lemma_strip_all_prefix_len(s: Seq<char>, p: Seq<char>)
    ensures
        strip_all_prefix(s, p).len() <= s.len(),
        strip_all_prefix(s, p) == s.skip(s.len() - strip_all_prefix(s, p).len()),
    decreases s.len(),
{
    if p.len() > 0 && p.is_prefix_of(s) {
        lemma_strip_all_prefix_len(s.skip(p.len() as int), p);
        assert(s.skip(p.len() as int).skip(s.skip(p.len() as int).len() - strip_all_prefix(s, p).len())
            =~= s.skip(s.len() - strip_all_prefix(s, p).len()));
    } else {
        assert(s.skip(0) =~= s);
    }
}

} // verus!
