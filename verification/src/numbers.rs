//! Decimal text of integers: formatting as `Display` writes it, the number
//! parsers of the query grammars (a maximal run of digits that must fit the
//! target type), and `str::parse` for integer types.
use vstd::prelude::*;
use crate::chars::{has_prefix, in_class, lemma_span_len, lemma_span_len_facts, push_char, span, span_len, CharClass};

verus! {

pub open spec fn digit_char(d: nat) -> char {
    if d == 0 { '0' } else if d == 1 { '1' } else if d == 2 { '2' } else if d == 3 { '3' }
    else if d == 4 { '4' } else if d == 5 { '5' } else if d == 6 { '6' } else if d == 7 { '7' }
    else if d == 8 { '8' } else { '9' }
}

pub open spec fn char_digit(c: char) -> nat {
    if c == '0' { 0 } else if c == '1' { 1 } else if c == '2' { 2 } else if c == '3' { 3 }
    else if c == '4' { 4 } else if c == '5' { 5 } else if c == '6' { 6 } else if c == '7' { 7 }
    else if c == '8' { 8 } else { 9 }
}

/// Decimal digits of `n`, most significant first, without leading zeros.
pub open spec fn dec(n: nat) -> Seq<char>
    decreases n,
{
    if n < 10 {
        seq![digit_char(n)]
    } else {
        dec(n / 10).push(digit_char(n % 10))
    }
}

/// Decimal text of a signed integer: `-` before the digits of a negative value.
pub open spec fn dec_int(n: int) -> Seq<char> {
    if n < 0 {
        seq!['-'] + dec((-n) as nat)
    } else {
        dec(n as nat)
    }
}

/// The value of a sequence of decimal digits.
pub open spec fn digits_val(s: Seq<char>) -> nat
    decreases s.len(),
{
    if s.len() == 0 {
        0
    } else {
        digits_val(s.drop_last()) * 10 + char_digit(s.last())
    }
}

fn digit_of(d: u64) -> (c: char)
    requires
        d < 10,
    ensures
        c == digit_char(d as nat),
{
    if d == 0 { '0' } else if d == 1 { '1' } else if d == 2 { '2' } else if d == 3 { '3' }
    else if d == 4 { '4' } else if d == 5 { '5' } else if d == 6 { '6' } else if d == 7 { '7' }
    else if d == 8 { '8' } else { '9' }
}

fn value_of_digit(c: char) -> (d: u64)
    ensures
        d == char_digit(c),
        d < 10,
{
    if c == '0' { 0 } else if c == '1' { 1 } else if c == '2' { 2 } else if c == '3' { 3 }
    else if c == '4' { 4 } else if c == '5' { 5 } else if c == '6' { 6 } else if c == '7' { 7 }
    else if c == '8' { 8 } else { 9 }
}

/// Appends the decimal digits of `n` to `out`.
pub fn push_dec(out: &mut String, n: u64)
    ensures
        final(out)@ == old(out)@ + dec(n as nat),
    decreases n,
{
    if n < 10 {
        push_char(out, digit_of(n));
        assert(old(out)@.push(digit_char(n as nat)) == old(out)@ + seq![digit_char(n as nat)]);
    } else {
        push_dec(out, n / 10);
        push_char(out, digit_of(n % 10));
        assert(old(out)@ + dec((n / 10) as nat) + seq![digit_char((n % 10) as nat)]
            == old(out)@ + dec((n / 10) as nat).push(digit_char((n % 10) as nat)));
    }
}

/// Appends the decimal text of the signed integer `n` to `out`.
pub fn push_dec_i64(out: &mut String, n: i64)
    ensures
        final(out)@ == old(out)@ + dec_int(n as int),
{
    if n < 0 {
        push_char(out, '-');
        let m: u64 = (0i128 - n as i128) as u64;
        push_dec(out, m);
        assert(old(out)@.push('-') + dec(m as nat) == old(out)@ + (seq!['-'] + dec(m as nat)));
    } else {
        push_dec(out, n as u64);
    }
}

/// `n.to_string()` for unsigned integers.
pub fn format_u64(n: u64) -> (s: String)
    ensures
        s@ == dec(n as nat),
{
    let mut s = String::new();
    push_dec(&mut s, n);
    assert(Seq::<char>::empty() + dec(n as nat) == dec(n as nat));
    s
}

/// `n.to_string()` for signed integers.
pub fn format_i64(n: i64) -> (s: String)
    ensures
        s@ == dec_int(n as int),
{
    let mut s = String::new();
    push_dec_i64(&mut s, n);
    assert(Seq::<char>::empty() + dec_int(n as int) == dec_int(n as int));
    s
}

pub proof fn lemma_digits_val_prefix(s: Seq<char>, j: int, k: int)
    requires
        0 <= j <= k <= s.len(),
    ensures
        digits_val(s.take(j)) <= digits_val(s.take(k)),
    decreases k - j,
{
    if j < k {
        lemma_digits_val_prefix(s, j, k - 1);
        assert(s.take(k).drop_last() == s.take(k - 1));
    }
}

/// A number as the query grammars read it: the maximal run of digits at
/// the start of `s`, which must be non-empty and at most `max`.  Gives the
/// value and the number of characters read.
pub open spec fn grammar_unsigned(s: Seq<char>, max: nat) -> Option<(nat, nat)> {
    let k = span_len(s, CharClass::Digit);
    if k == 0 || digits_val(s.take(k as int)) > max {
        None
    } else {
        Some((digits_val(s.take(k as int)), k))
    }
}

/// Reads `grammar_unsigned` at `pos`; gives the value and the end position.
pub fn parse_unsigned_at(v: &Vec<char>, pos: usize, max: u64) -> (r: Option<(u64, usize)>)
    requires
        pos <= v@.len(),
    ensures
        match grammar_unsigned(v@.skip(pos as int), max as nat) {
            None => r is None,
            Some((n, k)) => r matches Some((m, e)) && m == n && e == pos + k,
        },
        r matches Some((n, e)) ==> pos < e <= v@.len() && n <= max,
        grammar_unsigned(v@.skip(pos as int), max as nat) matches Some((n, k)) ==> pos + k <= v@.len(),
{
    let end = span(v, pos, CharClass::Digit);
    let ghost s = v@.skip(pos as int);
    proof { lemma_span_len_facts(s, CharClass::Digit); }
    if end == pos {
        return None;
    }
    let mut acc: u64 = 0;
    let mut i = pos;
    while i < end
        invariant
            pos <= i <= end <= v@.len(),
            end == pos + span_len(s, CharClass::Digit),
            s == v@.skip(pos as int),
            forall|j: int| 0 <= j < span_len(s, CharClass::Digit) ==> in_class(#[trigger] s[j], CharClass::Digit),
            acc as nat == digits_val(s.take(i - pos)),
            acc <= max,
        decreases end - i,
    {
        let d = value_of_digit(v[i]);
        proof {
            assert(s.take(i - pos + 1).drop_last() == s.take(i - pos));
            assert(s.take(i - pos + 1).last() == v@[i as int]);
        }
        let nv: u128 = acc as u128 * 10 + d as u128;
        if nv > max as u128 {
            proof {
                lemma_digits_val_prefix(s, i - pos + 1, end - pos);
            }
            return None;
        }
        acc = nv as u64;
        i = i + 1;
    }
    Some((acc, end))
}

/// A signed number as the query grammars read it: an optional `+` or `-`,
/// then a non-empty maximal run of digits; the value must lie in
/// `min..=max`.  Gives the value and the number of characters read.
pub open spec fn grammar_signed(s: Seq<char>, min: int, max: int) -> Option<(int, nat)> {
    let start: int = if s.len() > 0 && (s[0] == '-' || s[0] == '+') { 1 } else { 0 };
    let neg = s.len() > 0 && s[0] == '-';
    let body = s.skip(start);
    let k = span_len(body, CharClass::Digit);
    let mag = digits_val(body.take(k as int));
    let val: int = if neg { -(mag as int) } else { mag as int };
    if k == 0 || val < min || val > max {
        None
    } else {
        Some((val, (start + k) as nat))
    }
}

/// Reads `grammar_signed` for `i64` at `pos`; gives the value and the end position.
pub fn parse_i64_at(v: &Vec<char>, pos: usize) -> (r: Option<(i64, usize)>)
    requires
        pos <= v@.len(),
    ensures
        match grammar_signed(v@.skip(pos as int), i64::MIN as int, i64::MAX as int) {
            None => r is None,
            Some((n, k)) => r matches Some((m, e)) && m == n && e == pos + k,
        },
        r matches Some((n, e)) ==> pos < e <= v@.len(),
        grammar_signed(v@.skip(pos as int), i64::MIN as int, i64::MAX as int) matches Some((n, k)) ==> pos + k <= v@.len(),
{
    let ghost s = v@.skip(pos as int);
    let neg = pos < v.len() && v[pos] == '-';
    let start = if pos < v.len() && (v[pos] == '-' || v[pos] == '+') { pos + 1 } else { pos };
    proof {
        assert(v@.skip(start as int) == s.skip(start - pos));
    }
    let limit: u64 = if neg { 9223372036854775808u64 } else { 9223372036854775807u64 };
    match parse_unsigned_at(v, start, limit) {
        None => {
            proof {
                let body = s.skip(start - pos);
                let k = span_len(body, CharClass::Digit);
                let mag = digits_val(body.take(k as int));
            }
            None
        },
        Some((m, end)) => {
            let val: i64 = if neg { (0i128 - m as i128) as i64 } else { m as i64 };
            Some((val, end))
        },
    }
}

/// `str::parse` for an integer type with range `min..=max`: an optional
/// `+` (or `-` where `signed`), then one or more digits and nothing else.
pub open spec fn std_parse_int(s: Seq<char>, signed: bool, min: int, max: int) -> Option<int> {
    let has_sign = s.len() > 0 && (s[0] == '+' || (signed && s[0] == '-'));
    let neg = s.len() > 0 && signed && s[0] == '-';
    let body = if has_sign { s.drop_first() } else { s };
    let mag = digits_val(body);
    let val: int = if neg { -(mag as int) } else { mag as int };
    if body.len() == 0 || span_len(body, CharClass::Digit) != body.len() || val < min || val > max {
        None
    } else {
        Some(val)
    }
}

/// `str::parse` of the characters `v[a..b]` as an integer in `min..=max`.
pub fn std_parse_range(v: &Vec<char>, a: usize, b: usize, signed: bool, min: i64, max: u64) -> (r: Option<i128>)
    requires
        a <= b <= v@.len(),
        min <= 0,
    ensures
        r matches Some(n) ==> std_parse_int(v@.subrange(a as int, b as int), signed, min as int, max as int) == Some(n as int),
        r is None ==> std_parse_int(v@.subrange(a as int, b as int), signed, min as int, max as int) is None,
{
    let ghost s = v@.subrange(a as int, b as int);
    if a == b {
        return None;
    }
    let has_sign = v[a] == '+' || (signed && v[a] == '-');
    let neg = signed && v[a] == '-';
    let start = if has_sign { a + 1 } else { a };
    let body = sub_vec(v, start, b);
    proof {
        if has_sign {
            assert(body@ == s.drop_first());
        } else {
            assert(body@ == s);
        }
    }
    if body.len() == 0 {
        return None;
    }
    let end = span(&body, 0, CharClass::Digit);
    proof {
        assert(body@.skip(0) == body@);
        lemma_span_len_facts(body@, CharClass::Digit);
    }
    if end < body.len() {
        return None;
    }
    proof {
        assert(body@.take(body@.len() as int) == body@);
    }
    let limit: u64 = if neg { (0i128 - min as i128) as u64 } else { max };
    match parse_unsigned_at(&body, 0, limit) {
        None => None,
        Some((m, _)) => {
            if neg {
                Some(0i128 - m as i128)
            } else {
                Some(m as i128)
            }
        },
    }
}

/// A copy of `v[a..b]`.
pub fn sub_vec(v: &Vec<char>, a: usize, b: usize) -> (r: Vec<char>)
    requires
        a <= b <= v@.len(),
    ensures
        r@ == v@.subrange(a as int, b as int),
{
    let mut r: Vec<char> = Vec::new();
    let mut i = a;
    while i < b
        invariant
            a <= i <= b <= v@.len(),
            r@ == v@.subrange(a as int, i as int),
        decreases b - i,
    {
        r.push(v[i]);
        assert(v@.subrange(a as int, i + 1) == v@.subrange(a as int, i as int).push(v@[i as int]));
        i = i + 1;
    }
    r
}

pub proof fn lemma_digit_char(d: nat)
    requires
        d < 10,
    ensures
        char_digit(digit_char(d)) == d,
        in_class(digit_char(d), CharClass::Digit),
{
}

/// The decimal text of a number is a non-empty run of digits whose value is the number.
pub proof fn lemma_dec_digits(n: nat)
    ensures
        dec(n).len() >= 1,
        forall|i: int| 0 <= i < dec(n).len() ==> in_class(#[trigger] dec(n)[i], CharClass::Digit),
        digits_val(dec(n)) == n,
    decreases n,
{
    if n < 10 {
        lemma_digit_char(n);
        assert(dec(n).drop_last() =~= Seq::<char>::empty());
        assert(dec(n).last() == digit_char(n));
        assert(digits_val(Seq::<char>::empty()) == 0);
        assert(digits_val(dec(n)) == digits_val(dec(n).drop_last()) * 10 + char_digit(dec(n).last()));
    } else {
        lemma_dec_digits(n / 10);
        lemma_digit_char(n % 10);
        assert(dec(n).drop_last() == dec(n / 10));
        assert(dec(n).last() == digit_char(n % 10));
        assert(digits_val(dec(n)) == digits_val(dec(n).drop_last()) * 10 + char_digit(dec(n).last()));
        assert forall|i: int| 0 <= i < dec(n).len() implies in_class(#[trigger] dec(n)[i], CharClass::Digit) by {
            if i < dec(n).len() - 1 {
                assert(dec(n)[i] == dec(n / 10)[i]);
            }
        }
    }
}

/// The decimal text of a positive number does not start with `0`.
pub proof fn lemma_dec_head(n: nat)
    requires
        n >= 1,
    ensures
        dec(n)[0] != '0',
    decreases n,
{
    if n >= 10 {
        lemma_dec_head(n / 10);
        lemma_dec_digits(n / 10);
        assert(dec(n)[0] == dec(n / 10)[0]);
    }
}

/// `grammar_unsigned` reads back the decimal text of any number up to `max`.
pub proof fn lemma_grammar_unsigned_dec(n: nat, rest: Seq<char>, max: nat)
    requires
        n <= max,
        rest.len() == 0 || !in_class(rest[0], CharClass::Digit),
    ensures
        grammar_unsigned(dec(n) + rest, max) == Some((n, dec(n).len())),
{
    lemma_dec_digits(n);
    let s = dec(n) + rest;
    assert forall|j: int| 0 <= j < dec(n).len() implies in_class(#[trigger] s[j], CharClass::Digit) by {
        assert(s[j] == dec(n)[j]);
    }
    if rest.len() > 0 {
        assert(s[dec(n).len() as int] == rest[0]);
    }
    lemma_span_len(s, CharClass::Digit, dec(n).len() as int);
    assert(s.take(dec(n).len() as int) =~= dec(n));
}

/// `grammar_signed` reads back the decimal text of any integer in range.
pub proof fn lemma_grammar_signed_dec(n: int, min: int, max: int)
    requires
        min <= n <= max,
    ensures
        grammar_signed(dec_int(n), min, max) == Some((n, dec_int(n).len())),
{
    let m: nat = if n < 0 { (-n) as nat } else { n as nat };
    lemma_dec_digits(m);
    lemma_span_len(dec(m), CharClass::Digit, dec(m).len() as int);
    let s = dec_int(n);
    assert(dec(m).take(dec(m).len() as int) =~= dec(m));
    if n < 0 {
        assert(s.skip(1) =~= dec(m));
    } else {
        assert(in_class(dec(m)[0], CharClass::Digit));
        assert(s.skip(0) =~= dec(m));
    }
}

/// `str::parse` reads back the decimal text of any integer in range.
pub proof fn lemma_std_parse_dec(n: int, signed: bool, min: int, max: int)
    requires
        min <= n <= max,
        n >= 0 || signed,
    ensures
        std_parse_int(dec_int(n), signed, min, max) == Some(n),
{
    let m: nat = if n < 0 { (-n) as nat } else { n as nat };
    lemma_dec_digits(m);
    lemma_span_len(dec(m), CharClass::Digit, dec(m).len() as int);
    let s = dec_int(n);
    if n < 0 {
        assert(s.drop_first() =~= dec(m));
    } else {
        assert(in_class(dec(m)[0], CharClass::Digit));
    }
}

} // verus!
