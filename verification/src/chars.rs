//! Character-sequence helpers shared by all text formats: conversion between
//! strings and character vectors, prefix tests, maximal spans of a character
//! class, and Unicode/ASCII whitespace.
use vstd::prelude::*;

verus! {

/// Appends one character to a `String` (`String::push`).
#[verifier::external_body]
pub fn push_char(s: &mut String, c: char)
    ensures
        final(s)@ == old(s)@.push(c),
{
    s.push(c);
}

/// Appends a string slice to a `String` (`String::push_str`).
#[verifier::external_body]
pub fn push_str(s: &mut String, t: &str)
    ensures
        final(s)@ == old(s)@ + t@,
{
    s.push_str(t);
}

/// Converts a string slice into its characters.
pub fn to_chars(s: &str) -> (r: Vec<char>)
    ensures
        r@ == s@,
{
    let mut r: Vec<char> = Vec::new();
    for c in it: s.chars()
        invariant
            r@ == it.seq().take(it.index() as int),
    {
        r.push(c);
    }
    r
}

/// Builds a string from the characters `v[a..b]`.
pub fn string_of(v: &Vec<char>, a: usize, b: usize) -> (r: String)
    requires
        a <= b <= v@.len(),
    ensures
        r@ == v@.subrange(a as int, b as int),
{
    let mut r = String::new();
    let mut i = a;
    while i < b
        invariant
            a <= i <= b <= v@.len(),
            r@ == v@.subrange(a as int, i as int),
        decreases b - i,
    {
        push_char(&mut r, v[i]);
        assert(v@.subrange(a as int, i + 1) == v@.subrange(a as int, i as int).push(v@[i as int]));
        i = i + 1;
    }
    r
}

/// Appends `v[a..b]` to `out`.
pub fn push_range(out: &mut String, v: &Vec<char>, a: usize, b: usize)
    requires
        a <= b <= v@.len(),
    ensures
        final(out)@ == old(out)@ + v@.subrange(a as int, b as int),
{
    let mut i = a;
    while i < b
        invariant
            a <= i <= b <= v@.len(),
            out@ == old(out)@ + v@.subrange(a as int, i as int),
        decreases b - i,
    {
        push_char(out, v[i]);
        assert(v@.subrange(a as int, i + 1) == v@.subrange(a as int, i as int).push(v@[i as int]));
        i = i + 1;
    }
}

/// Builds a string from a character vector.
pub fn string_from(v: &Vec<char>) -> (r: String)
    ensures
        r@ == v@,
{
    let r = string_of(v, 0, v.len());
    assert(v@.subrange(0, v@.len() as int) == v@);
    r
}

/// `p` is a prefix of `s`.
pub open spec fn has_prefix(s: Seq<char>, p: Seq<char>) -> bool {
    &&& p.len() <= s.len()
    &&& forall|i: int| 0 <= i < p.len() ==> #[trigger] s[i] == p[i]
}

/// Whether `lit` occurs in `v` at position `pos`.
pub fn matches_at(v: &Vec<char>, pos: usize, lit: &str) -> (r: bool)
    requires
        pos <= v@.len(),
    ensures
        r == has_prefix(v@.skip(pos as int), lit@),
{
    let l = to_chars(lit);
    if l.len() > v.len() - pos {
        return false;
    }
    let mut i: usize = 0;
    while i < l.len()
        invariant
            l@ == lit@,
            pos + l@.len() <= v@.len(),
            pos + l.len() <= v.len(),
            0 <= i <= l@.len(),
            forall|j: int| 0 <= j < i ==> v@[pos + j] == l@[j],
        decreases l@.len() - i,
    {
        if v[pos + i] != l[i] {
            assert(v@.skip(pos as int)[i as int] != l@[i as int]);
            return false;
        }
        i = i + 1;
    }
    assert forall|j: int| 0 <= j < l@.len() implies #[trigger] v@.skip(pos as int)[j] == l@[j] by {
        assert(v@[pos + j] == l@[j]);
    }
    true
}

/// The classes of characters that the text formats take maximal runs of.
#[derive(Clone, Copy, PartialEq, Eq, Debug)]
pub enum CharClass {
    /// ASCII decimal digits.
    Digit,
    /// Characters of a sticker's unique id: ASCII letters, digits, `_` and `-`.
    StickerId,
    /// Characters of a tag: printable ASCII except `,` and `;`.
    Tag,
    /// Characters of a sticker set's name: ASCII letters, digits and `_`.
    SetName,
    /// ASCII letters and digits.
    Alphanumeric,
    /// Blank characters as the query grammar counts them: space, tab, CR, LF.
    MultiSpace,
    /// Non-ASCII characters that are not Unicode whitespace (emoji text).
    EmojiText,
    /// Unicode whitespace (`char::is_whitespace`).
    UnicodeSpace,
    /// Every character but `;` (a field of a `;`-separated text).
    Field,
    /// ASCII letters.
    Letter,
    /// Every character but `,` (an item of a `,`-separated list).
    Item,
    /// Every character but `.` (a file name's extension and what follows the last dot).
    NotDot,
    /// The slash `/`.
    Slash,
    /// Every character.
    Any,
}

pub open spec fn is_ascii_alnum(c: char) -> bool {
    ('a' <= c && c <= 'z') || ('A' <= c && c <= 'Z') || ('0' <= c && c <= '9')
}

pub open spec fn is_multispace(c: char) -> bool {
    c == ' ' || c == '\t' || c == '\r' || c == '\n'
}

/// Unicode `White_Space` as `char::is_whitespace` documents it.
pub open spec fn is_unicode_whitespace(c: char) -> bool {
    ||| ('\u{9}' <= c && c <= '\u{d}')
    ||| c == ' '
    ||| c == '\u{85}'
    ||| c == '\u{a0}'
    ||| c == '\u{1680}'
    ||| ('\u{2000}' <= c && c <= '\u{200a}')
    ||| c == '\u{2028}'
    ||| c == '\u{2029}'
    ||| c == '\u{202f}'
    ||| c == '\u{205f}'
    ||| c == '\u{3000}'
}

pub open spec fn in_class(c: char, class: CharClass) -> bool {
    match class {
        CharClass::Digit => '0' <= c && c <= '9',
        CharClass::StickerId => is_ascii_alnum(c) || c == '_' || c == '-',
        CharClass::Tag => '!' <= c && c <= '~' && c != ',' && c != ';',
        CharClass::SetName => is_ascii_alnum(c) || c == '_',
        CharClass::Alphanumeric => is_ascii_alnum(c),
        CharClass::MultiSpace => is_multispace(c),
        CharClass::EmojiText => c > '\u{7f}' && !is_unicode_whitespace(c),
        CharClass::UnicodeSpace => is_unicode_whitespace(c),
        CharClass::Field => c != ';',
        CharClass::Letter => ('a' <= c && c <= 'z') || ('A' <= c && c <= 'Z'),
        CharClass::Item => c != ',',
        CharClass::NotDot => c != '.',
        CharClass::Slash => c == '/',
        CharClass::Any => true,
    }
}

pub fn char_in_class(c: char, class: CharClass) -> (r: bool)
    ensures
        r == in_class(c, class),
{
    match class {
        CharClass::Digit => '0' <= c && c <= '9',
        CharClass::StickerId => is_alnum(c) || c == '_' || c == '-',
        CharClass::Tag => '!' <= c && c <= '~' && c != ',' && c != ';',
        CharClass::SetName => is_alnum(c) || c == '_',
        CharClass::Alphanumeric => is_alnum(c),
        CharClass::MultiSpace => c == ' ' || c == '\t' || c == '\r' || c == '\n',
        CharClass::EmojiText => c > '\u{7f}' && !is_whitespace(c),
        CharClass::UnicodeSpace => is_whitespace(c),
        CharClass::Field => c != ';',
        CharClass::Letter => ('a' <= c && c <= 'z') || ('A' <= c && c <= 'Z'),
        CharClass::Item => c != ',',
        CharClass::NotDot => c != '.',
        CharClass::Slash => c == '/',
        CharClass::Any => true,
    }
}

fn is_alnum(c: char) -> (r: bool)
    ensures
        r == is_ascii_alnum(c),
{
    ('a' <= c && c <= 'z') || ('A' <= c && c <= 'Z') || ('0' <= c && c <= '9')
}

/// `char::is_whitespace`.
pub fn is_whitespace(c: char) -> (r: bool)
    ensures
        r == is_unicode_whitespace(c),
{
    ('\u{9}' <= c && c <= '\u{d}') || c == ' ' || c == '\u{85}' || c == '\u{a0}' || c == '\u{1680}'
        || ('\u{2000}' <= c && c <= '\u{200a}') || c == '\u{2028}' || c == '\u{2029}'
        || c == '\u{202f}' || c == '\u{205f}' || c == '\u{3000}'
}

/// Length of the longest prefix of `s` whose characters all lie in `class`.
pub open spec fn span_len(s: Seq<char>, class: CharClass) -> nat
    decreases s.len(),
{
    if s.len() > 0 && in_class(s[0], class) {
        1 + span_len(s.drop_first(), class)
    } else {
        0
    }
}

pub proof fn lemma_span_len(s: Seq<char>, class: CharClass, k: int)
    requires
        0 <= k <= s.len(),
        forall|i: int| 0 <= i < k ==> in_class(#[trigger] s[i], class),
        k == s.len() || !in_class(s[k], class),
    ensures
        span_len(s, class) == k,
    decreases k,
{
    if k > 0 {
        assert forall|i: int| 0 <= i < k - 1 implies in_class(#[trigger] s.drop_first()[i], class) by {
            assert(s.drop_first()[i] == s[i + 1]);
        }
        lemma_span_len(s.drop_first(), class, k - 1);
    }
}

pub proof fn lemma_span_len_facts(s: Seq<char>, class: CharClass)
    ensures
        span_len(s, class) <= s.len(),
        forall|i: int| 0 <= i < span_len(s, class) ==> in_class(#[trigger] s[i], class),
        span_len(s, class) == s.len() || !in_class(s[span_len(s, class) as int], class),
    decreases s.len(),
{
    if s.len() > 0 && in_class(s[0], class) {
        lemma_span_len_facts(s.drop_first(), class);
        assert forall|i: int| 0 <= i < span_len(s, class) implies in_class(#[trigger] s[i], class) by {
            if i > 0 {
                assert(s[i] == s.drop_first()[i - 1]);
            }
        }
    }
}

/// End of the maximal run of `class` characters starting at `pos`.
pub fn span(v: &Vec<char>, pos: usize, class: CharClass) -> (end: usize)
    requires
        pos <= v@.len(),
    ensures
        end == pos + span_len(v@.skip(pos as int), class),
        end <= v@.len(),
{
    let mut i = pos;
    while i < v.len() && char_in_class(v[i], class)
        invariant
            pos <= i <= v@.len(),
            forall|j: int| pos <= j < i ==> in_class(#[trigger] v@[j], class),
        decreases v@.len() - i,
    {
        i = i + 1;
    }
    proof {
        let s = v@.skip(pos as int);
        assert forall|j: int| 0 <= j < i - pos implies in_class(#[trigger] s[j], class) by {
            assert(s[j] == v@[pos + j]);
        }
        lemma_span_len(s, class, i - pos);
    }
    i
}

/// Position after the keyword `kw` when it occurs at `i`.
pub open spec fn kw_to(s: Seq<char>, i: int, kw: Seq<char>) -> Option<int> {
    if 0 <= i <= s.len() && has_prefix(s.skip(i), kw) {
        Some(i + kw.len())
    } else {
        None
    }
}

/// End of the non-empty maximal run of `class` characters at `i`.
pub open spec fn word(s: Seq<char>, i: int, class: CharClass) -> Option<int> {
    if 0 <= i <= s.len() && span_len(s.skip(i), class) > 0 {
        Some(i + span_len(s.skip(i), class))
    } else {
        None
    }
}

/// The first of two keywords that occurs at `i`: `true` for `kw1`, `false` for `kw2`.
pub open spec fn choice2(s: Seq<char>, i: int, kw1: Seq<char>, kw2: Seq<char>) -> Option<(bool, int)> {
    match kw_to(s, i, kw1) {
        Some(e) => Some((true, e)),
        None => match kw_to(s, i, kw2) {
            Some(e) => Some((false, e)),
            None => None,
        },
    }
}

pub fn kw_at(v: &Vec<char>, i: usize, kw: &str) -> (r: Option<usize>)
    requires
        i <= v@.len(),
    ensures
        r matches Some(e) ==> kw_to(v@, i as int, kw@) == Some(e as int) && i <= e <= v@.len(),
        r is None ==> kw_to(v@, i as int, kw@) is None,
{
    if matches_at(v, i, kw) {
        let kc = to_chars(kw);
        let n = kc.len();
        assert(n == kw@.len());
        assert(kw@.len() <= v@.skip(i as int).len());
        assert(v@.skip(i as int).len() == v@.len() - i);
        let vl = v.len();
        assert(i + n <= vl);
        Some(i + n)
    } else {
        None
    }
}

pub fn word_at(v: &Vec<char>, i: usize, class: CharClass) -> (r: Option<usize>)
    requires
        i <= v@.len(),
    ensures
        r matches Some(e) ==> word(v@, i as int, class) == Some(e as int) && i < e <= v@.len(),
        r is None ==> word(v@, i as int, class) is None,
{
    let e = span(v, i, class);
    if e > i {
        Some(e)
    } else {
        None
    }
}

pub fn choice2_at(v: &Vec<char>, i: usize, kw1: &str, kw2: &str) -> (r: Option<(bool, usize)>)
    requires
        i <= v@.len(),
    ensures
        r matches Some((b, e)) ==> choice2(v@, i as int, kw1@, kw2@) == Some((b, e as int)) && i <= e <= v@.len(),
        r is None ==> choice2(v@, i as int, kw1@, kw2@) is None,
{
    match kw_at(v, i, kw1) {
        Some(e) => Some((true, e)),
        None => match kw_at(v, i, kw2) {
            Some(e) => Some((false, e)),
            None => None,
        },
    }
}

pub proof fn lemma_word(s: Seq<char>, i: int, k: int, class: CharClass)
    requires
        0 <= i,
        0 < k,
        i + k <= s.len(),
        forall|j: int| i <= j < i + k ==> in_class(#[trigger] s[j], class),
        i + k == s.len() || !in_class(s[i + k], class),
    ensures
        word(s, i, class) == Some(i + k),
{
    let t = s.skip(i);
    assert forall|j: int| 0 <= j < k implies in_class(#[trigger] t[j], class) by {
        assert(t[j] == s[i + j]);
    }
    if i + k < s.len() {
        assert(t[k] == s[i + k]);
    }
    lemma_span_len(t, class, k);
}

pub proof fn lemma_kw(s: Seq<char>, i: int, kw: Seq<char>)
    requires
        0 <= i,
        i + kw.len() <= s.len(),
        s.subrange(i, i + kw.len()) == kw,
    ensures
        kw_to(s, i, kw) == Some(i + kw.len()),
{
    assert forall|j: int| 0 <= j < kw.len() implies #[trigger] s.skip(i)[j] == kw[j] by {
        assert(s.subrange(i, i + kw.len())[j] == s[i + j]);
    }
}

/// A non-empty run of characters of `class`.
pub open spec fn valid_word(w: Seq<char>, class: CharClass) -> bool {
    w.len() > 0 && forall|i: int| 0 <= i < w.len() ==> in_class(#[trigger] w[i], class)
}

/// A valid word at `i` that the text does not continue is the word there.
pub proof fn lemma_word_sub(s: Seq<char>, i: int, w: Seq<char>, class: CharClass)
    requires
        0 <= i,
        i + w.len() <= s.len(),
        s.subrange(i, i + w.len()) == w,
        valid_word(w, class),
        i + w.len() == s.len() || !in_class(s[i + w.len()], class),
    ensures
        word(s, i, class) == Some(i + w.len()),
{
    assert forall|j: int| i <= j < i + w.len() implies in_class(#[trigger] s[j], class) by {
        assert(s[j] == s.subrange(i, i + w.len())[j - i]);
    }
    lemma_word(s, i, w.len() as int, class);
}

/// The texts of the strings.
pub open spec fn texts(v: Seq<String>) -> Seq<Seq<char>> {
    Seq::new(v.len(), |i: int| v[i]@)
}

/// `t` is the text of one of the strings.
pub open spec fn lists(v: Seq<String>, t: Seq<char>) -> bool {
    exists|i: int| 0 <= i < v.len() && #[trigger] v[i]@ == t
}

/// The parts joined with `sep` between neighbours.
pub open spec fn join(parts: Seq<Seq<char>>, sep: Seq<char>) -> Seq<char>
    decreases parts.len(),
{
    if parts.len() == 0 {
        Seq::empty()
    } else if parts.len() == 1 {
        parts[0]
    } else {
        join(parts.drop_last(), sep) + sep + parts.last()
    }
}

/// Appends the strings joined with `sep` (`itertools::join` / `slice::join`).
pub fn push_join(out: &mut String, parts: &Vec<String>, sep: &str)
    ensures
        final(out)@ == old(out)@ + join(parts.deep_view(), sep@),
{
    let ghost p = parts.deep_view();
    let mut i: usize = 0;
    while i < parts.len()
        invariant
            0 <= i <= parts@.len(),
            p == parts.deep_view(),
            p.len() == parts@.len(),
            out@ == old(out)@ + join(p.take(i as int), sep@),
        decreases parts@.len() - i,
    {
        let ghost before = out@;
        if i > 0 {
            push_str(out, sep);
        }
        push_str(out, parts[i].as_str());
        proof {
            let t = p.take(i + 1);
            assert(t.drop_last() == p.take(i as int));
            assert(t.last() == parts@[i as int]@);
            if i == 0 {
                assert(p.take(0) =~= Seq::<Seq<char>>::empty());
                assert(out@ == old(out)@ + join(t, sep@));
            } else {
                assert(out@ == old(out)@ + join(t, sep@));
            }
        }
        i = i + 1;
    }
    assert(p.take(parts@.len() as int) == p);
}

/// Length of the longest suffix of `s` whose characters all lie in `class`.
pub open spec fn trailing_len(s: Seq<char>, class: CharClass) -> nat
    decreases s.len(),
{
    if s.len() > 0 && in_class(s.last(), class) {
        1 + trailing_len(s.drop_last(), class)
    } else {
        0
    }
}

/// `str::trim`: `s` without leading and trailing Unicode whitespace.
pub open spec fn trim(s: Seq<char>) -> Seq<char> {
    let a = span_len(s, CharClass::UnicodeSpace) as int;
    let b = s.len() - trailing_len(s, CharClass::UnicodeSpace);
    if a >= b { Seq::empty() } else { s.subrange(a, b) }
}

pub proof fn lemma_trailing_len(s: Seq<char>, class: CharClass, k: int)
    requires
        0 <= k <= s.len(),
        forall|i: int| s.len() - k <= i < s.len() ==> in_class(#[trigger] s[i], class),
        k == s.len() || !in_class(s[s.len() - k - 1], class),
    ensures
        trailing_len(s, class) == k,
    decreases k,
{
    if k > 0 {
        let t = s.drop_last();
        assert forall|i: int| t.len() - (k - 1) <= i < t.len() implies in_class(#[trigger] t[i], class) by {
            assert(t[i] == s[i]);
        }
        if k - 1 < t.len() {
            assert(t[t.len() - (k - 1) - 1] == s[s.len() - k - 1]);
        }
        lemma_trailing_len(t, class, k - 1);
    }
}

proof fn lemma_trailing_len_bound(s: Seq<char>, class: CharClass)
    ensures
        trailing_len(s, class) <= s.len(),
    decreases s.len(),
{
    if s.len() > 0 {
        lemma_trailing_len_bound(s.drop_last(), class);
    }
}

/// `s[a..b]` is `s.trim()`.
pub fn trim_bounds(v: &Vec<char>) -> (r: (usize, usize))
    ensures
        r.0 <= r.1 <= v@.len(),
        v@.subrange(r.0 as int, r.1 as int) == trim(v@),
{
    let a = span(v, 0, CharClass::UnicodeSpace);
    assert(v@.skip(0) == v@);
    proof { lemma_span_len_facts(v@, CharClass::UnicodeSpace); }
    let mut b = v.len();
    while b > a && char_in_class(v[b - 1], CharClass::UnicodeSpace)
        invariant
            a <= b <= v@.len(),
            a == span_len(v@, CharClass::UnicodeSpace),
            forall|i: int| b <= i < v@.len() ==> in_class(#[trigger] v@[i], CharClass::UnicodeSpace),
        decreases b,
    {
        b = b - 1;
    }
    proof {
        if b > a {
            lemma_trailing_len(v@, CharClass::UnicodeSpace, v@.len() - b);
        } else {
            if a < v@.len() {
                assert(in_class(v@[a as int], CharClass::UnicodeSpace));
            }
            assert(a == v@.len());
            lemma_trailing_len_bound(v@, CharClass::UnicodeSpace);
        }
    }
    if b > a {
        (a, b)
    } else {
        assert(v@.subrange(a as int, a as int) =~= Seq::<char>::empty());
        (a, a)
    }
}

} // verus!
