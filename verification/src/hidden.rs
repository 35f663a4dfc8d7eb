//! Arguments of the hidden commands that the bot's own buttons send: tag
//! lists, the new-set and report arguments, and the tag lists of the
//! continuous tag mode.
use vstd::prelude::*;
use crate::chars::{lemma_span_len_facts, texts, span, span_len, string_of, to_chars, in_class, CharClass};
use crate::errors::{byte_len, byte_len_of, UserError};
use crate::numbers::{grammar_signed, parse_i64_at};

verus! {

/// The `,`-separated fields of `s` (one field where there is no `,`).
pub open spec fn comma_fields(s: Seq<char>) -> Seq<Seq<char>>
    decreases s.len(),
{
    let k = span_len(s, CharClass::Item);
    if k >= s.len() {
        seq![s]
    } else {
        seq![s.take(k as int)] + comma_fields(s.skip(k + 1int))
    }
}

/// A list of tags, written with `,` between them.
#[derive(Debug, Clone, PartialEq, Eq)]
pub struct TagList(pub Vec<String>);

impl TagList {
    /// Splits the text at each `,`.
    pub fn parse(s: &str) -> (r: TagList)
        ensures
            r.0.deep_view() == comma_fields(s@),
    {
        let v = to_chars(s);
        let mut out: Vec<String> = Vec::new();
        let mut pos: usize = 0;
        proof {
            assert(v@.skip(0) =~= v@);
            assert(out.deep_view() + comma_fields(v@) =~= comma_fields(v@));
        }
        loop
            invariant_except_break
                pos <= v@.len(),
                out.deep_view() + comma_fields(v@.skip(pos as int)) == comma_fields(v@),
            ensures
                out.deep_view() == comma_fields(v@),
            decreases v@.len() - pos,
        {
            let ghost t = v@.skip(pos as int);
            let ghost before = out.deep_view();
            let e = span(&v, pos, CharClass::Item);
            let field = string_of(&v, pos, e);
            out.push(field);
            proof {
                lemma_span_len_facts(t, CharClass::Item);
                assert(out.deep_view() =~= before.push(v@.subrange(pos as int, e as int)));
            }
            if e >= v.len() {
                proof {
                    assert(v@.subrange(pos as int, e as int) =~= t);
                    assert(comma_fields(t) == seq![t]);
                    assert(before.push(t) =~= before + seq![t]);
                }
                break;
            }
            proof {
                let k = span_len(t, CharClass::Item);
                assert(t.take(k as int) =~= v@.subrange(pos as int, e as int));
                assert(t.skip(k + 1int) =~= v@.skip(e + 1));
                assert(comma_fields(t) == seq![t.take(k as int)] + comma_fields(t.skip(k + 1int)));
                assert(before + comma_fields(t) =~= before.push(t.take(k as int)) + comma_fields(v@.skip(e + 1)));
            }
            pos = e + 1;
        }
        TagList(out)
    }
}

impl core::str::FromStr for TagList {
    type Err = UserError;

    fn from_str(s: &str) -> (r: Result<TagList, UserError>)
        ensures
            r matches Ok(l) && l.0.deep_view() == comma_fields(s@),
    {
        Ok(TagList::parse(s))
    }
}

/// Tags joined with `,` split back into the tags, where no tag holds a `,`.
pub proof fn lemma_comma_fields_join(ts: Seq<Seq<char>>)
    requires
        ts.len() > 0,
        forall|i: int, j: int| 0 <= i < ts.len() && 0 <= j < ts[i].len() ==> #[trigger] ts[i][j] != ',',
    ensures
        comma_fields(crate::chars::join(ts, ","@)) == ts,
    decreases ts.len(),
{
    reveal_strlit(",");
    let s = crate::chars::join(ts, ","@);
    if ts.len() == 1 {
        assert(s == ts[0]);
        assert forall|k: int| 0 <= k < s.len() implies in_class(#[trigger] s[k], CharClass::Item) by {
            assert(ts[0][k] != ',');
        }
        crate::chars::lemma_span_len(s, CharClass::Item, s.len() as int);
        assert(seq![s] =~= ts);
    } else {
        let d = ts.drop_last();
        let head = crate::chars::join(d, ","@);
        assert(s == head + ","@ + ts.last());
        lemma_comma_fields_join(d);
        lemma_comma_fields_append(head, d, ts.last());
        assert(d.push(ts.last()) =~= ts);
    }
}

/// Appending `,` and a field without `,` appends the field to the fields.
proof fn lemma_comma_fields_append(s: Seq<char>, fs: Seq<Seq<char>>, t: Seq<char>)
    requires
        comma_fields(s) == fs,
        forall|j: int| 0 <= j < t.len() ==> #[trigger] t[j] != ',',
    ensures
        comma_fields(s + ","@ + t) == fs.push(t),
    decreases s.len(),
{
    reveal_strlit(",");
    let u = s + ","@ + t;
    let k = span_len(s, CharClass::Item);
    lemma_span_len_facts(s, CharClass::Item);
    if k >= s.len() {
        assert forall|i: int| 0 <= i < s.len() implies in_class(#[trigger] u[i], CharClass::Item) by {
            assert(u[i] == s[i]);
        }
        assert(u[s.len() as int] == ',');
        crate::chars::lemma_span_len(u, CharClass::Item, s.len() as int);
        assert(u.take(s.len() as int) =~= s);
        assert(u.skip(s.len() + 1int) =~= t);
        assert forall|i: int| 0 <= i < t.len() implies in_class(#[trigger] t[i], CharClass::Item) by {}
        crate::chars::lemma_span_len(t, CharClass::Item, t.len() as int);
        assert(comma_fields(t) == seq![t]);
        assert(fs == seq![s]);
        assert(seq![s] + seq![t] =~= seq![s].push(t));
    } else {
        let rest = s.skip(k + 1int);
        assert forall|i: int| 0 <= i < k implies in_class(#[trigger] u[i], CharClass::Item) by {
            assert(u[i] == s[i]);
        }
        assert(u[k as int] == s[k as int]);
        crate::chars::lemma_span_len(u, CharClass::Item, k as int);
        assert(u.take(k as int) =~= s.take(k as int));
        assert(u.skip(k + 1int) =~= rest + ","@ + t);
        let rfs = comma_fields(rest);
        assert(fs == seq![s.take(k as int)] + rfs);
        lemma_comma_fields_append(rest, rfs, t);
        assert(seq![s.take(k as int)] + rfs.push(t) =~= (seq![s.take(k as int)] + rfs).push(t));
    }
}

/// The arguments of the new-set command: a sticker id, blanks, and the
/// title of the set (the rest of the text, not empty).  Where they cannot
/// be read, the character position where reading stopped.
pub open spec fn new_set_args(s: Seq<char>) -> Result<(Seq<char>, Seq<char>), int> {
    let k = span_len(s, CharClass::StickerId) as int;
    let m = span_len(s.skip(k), CharClass::MultiSpace) as int;
    if k == 0 {
        Err(0)
    } else if m == 0 {
        Err(k)
    } else if k + m == s.len() {
        Err(k + m)
    } else {
        Ok((s.take(k), s.skip(k + m)))
    }
}

/// The arguments of the report command: a number, blanks, and a set name;
/// what follows the set name is not read.  Where they cannot be read, the
/// character position where reading stopped; a number that is no known
/// reason refuses the whole text (position 0).
pub open spec fn report_args(s: Seq<char>, reasons: Seq<i64>) -> Result<(i64, Seq<char>), int> {
    match grammar_signed(s, i64::MIN as int, i64::MAX as int) {
        None => Err(0),
        Some((n, k)) => {
            let m = span_len(s.skip(k as int), CharClass::MultiSpace) as int;
            let w = span_len(s.skip(k + m), CharClass::SetName) as int;
            if m == 0 {
                Err(k as int)
            } else if w == 0 {
                Err(k + m)
            } else {
                if reasons.contains(n as i64) {
                    Ok((n as i64, s.subrange(k + m, k + m + w)))
                } else {
                    Err(0)
                }
            }
        },
    }
}

/// The error for arguments that could not be read from position `p` on:
/// the byte position and the rest of the text.
pub open spec fn args_error(s: Seq<char>, p: int, e: UserError) -> bool {
    e matches UserError::ParseError(pos, rest) && pos == byte_len(s.take(p)) && rest@ == s.skip(p)
}

fn args_error_at(v: &Vec<char>, p: usize, total: usize) -> (e: UserError)
    requires
        p <= v@.len(),
        byte_len(v@) == total,
    ensures
        args_error(v@, p as int, e),
{
    proof {
        crate::errors::lemma_byte_len_prefix(v@, p as int);
    }
    let pos = byte_len_of(v, p);
    let rest = string_of(v, p, v.len());
    assert(v@.subrange(p as int, v@.len() as int) =~= v@.skip(p as int));
    UserError::ParseError(pos, rest)
}

/// Reads the arguments of the new-set command: the sticker id and the title.
pub fn new_sticker_set_custom_parser(input: &str) -> (r: Result<(String, String), UserError>)
    ensures
        r matches Ok((id, title)) ==> new_set_args(input@) == Ok::<(Seq<char>, Seq<char>), int>((id@, title@)),
        r matches Err(e) ==> new_set_args(input@) matches Err(p) && args_error(input@, p, e),
{
    let v = to_chars(input);
    let total = input.as_bytes().len();
    proof {
        crate::errors::lemma_byte_len_utf8(v@);
        assert(v@.skip(0) =~= v@);
    }
    let k = span(&v, 0, CharClass::StickerId);
    if k == 0 {
        return Err(args_error_at(&v, 0, total));
    }
    let e = span(&v, k, CharClass::MultiSpace);
    if e == k {
        return Err(args_error_at(&v, k, total));
    }
    if e == v.len() {
        return Err(args_error_at(&v, e, total));
    }
    let id = string_of(&v, 0, k);
    let title = string_of(&v, e, v.len());
    proof {
        assert(v@.subrange(0, k as int) =~= v@.take(k as int));
        assert(v@.subrange(e as int, v@.len() as int) =~= v@.skip(e as int));
    }
    Ok((id, title))
}

/// Whether `n` is one of the numbers.
fn holds_number(v: &Vec<i64>, n: i64) -> (r: bool)
    ensures
        r == v@.contains(n),
{
    let mut j: usize = 0;
    while j < v.len()
        invariant
            0 <= j <= v@.len(),
            forall|i: int| 0 <= i < j ==> v@[i] != n,
        decreases v@.len() - j,
    {
        if v[j] == n {
            assert(v@[j as int] == n);
            return true;
        }
        j = j + 1;
    }
    false
}

/// Reads the arguments of the report command: the reason number and the
/// set name.  `known_reasons` holds the numbers of the report reasons.
pub fn report_set_custom_parser(input: &str, known_reasons: &Vec<i64>) -> (r: Result<(i64, String), UserError>)
    ensures
        r matches Ok((n, set_id)) ==> report_args(input@, known_reasons@) == Ok::<(i64, Seq<char>), int>((n, set_id@)),
        r matches Err(e) ==> report_args(input@, known_reasons@) matches Err(p) && args_error(input@, p, e),
{
    let v = to_chars(input);
    let total = input.as_bytes().len();
    proof {
        crate::errors::lemma_byte_len_utf8(v@);
        assert(v@.skip(0) =~= v@);
    }
    match parse_i64_at(&v, 0) {
        None => Err(args_error_at(&v, 0, total)),
        Some((n, k)) => {
            let e = span(&v, k, CharClass::MultiSpace);
            if e == k {
                return Err(args_error_at(&v, k, total));
            }
            let w = span(&v, e, CharClass::SetName);
            if w == e {
                return Err(args_error_at(&v, e, total));
            }
            let set_id = string_of(&v, e, w);
            if holds_number(known_reasons, n) {
                Ok((n, set_id))
            } else {
                Err(args_error_at(&v, 0, total))
            }
        },
    }
}

/// `a` comes before `b` in the order of `String`: byte-wise on the UTF-8
/// text, which is the order of the characters' code points, a proper
/// prefix first.
pub open spec fn text_before(a: Seq<char>, b: Seq<char>) -> bool
    decreases a.len(),
{
    if a.len() == 0 {
        b.len() > 0
    } else if b.len() == 0 {
        false
    } else if a[0] != b[0] {
        a[0] < b[0]
    } else {
        text_before(a.drop_first(), b.drop_first())
    }
}

proof fn lemma_text_before_irreflexive(a: Seq<char>)
    ensures
        !text_before(a, a),
    decreases a.len(),
{
    if a.len() > 0 {
        lemma_text_before_irreflexive(a.drop_first());
    }
}

proof fn lemma_text_before_transitive(a: Seq<char>, b: Seq<char>, c: Seq<char>)
    requires
        text_before(a, b),
        text_before(b, c),
    ensures
        text_before(a, c),
    decreases a.len(),
{
    if a.len() > 0 && b.len() > 0 && c.len() > 0 && a[0] == b[0] && b[0] == c[0] {
        lemma_text_before_transitive(a.drop_first(), b.drop_first(), c.drop_first());
    }
}

proof fn lemma_text_before_total(a: Seq<char>, b: Seq<char>)
    ensures
        a == b || text_before(a, b) || text_before(b, a),
    decreases a.len(),
{
    if a.len() > 0 && b.len() > 0 && a[0] == b[0] {
        lemma_text_before_total(a.drop_first(), b.drop_first());
        if a.drop_first() == b.drop_first() {
            assert(a =~= seq![a[0]] + a.drop_first());
            assert(b =~= seq![b[0]] + b.drop_first());
        }
    } else if a.len() == 0 && b.len() == 0 {
        assert(a =~= b);
    }
}

/// Compares two texts in the order of `String`.
fn text_lt(a: &String, b: &String) -> (r: bool)
    ensures
        r == text_before(a@, b@),
{
    let x = to_chars(a.as_str());
    let y = to_chars(b.as_str());
    let mut i: usize = 0;
    assert(x@.skip(0) =~= x@);
    assert(y@.skip(0) =~= y@);
    while i < x.len() && i < y.len() && x[i] == y[i]
        invariant
            0 <= i <= x@.len(),
            i <= y@.len(),
            x@ == a@,
            y@ == b@,
            forall|j: int| 0 <= j < i ==> x@[j] == y@[j],
            text_before(x@, y@) == text_before(x@.skip(i as int), y@.skip(i as int)),
        decreases x@.len() - i,
    {
        proof {
            assert(x@.skip(i as int).drop_first() =~= x@.skip(i + 1));
            assert(y@.skip(i as int).drop_first() =~= y@.skip(i + 1));
        }
        i = i + 1;
    }
    proof {
        if i < x@.len() && i < y@.len() {
            assert(x@.skip(i as int)[0] == x@[i as int]);
            assert(y@.skip(i as int)[0] == y@[i as int]);
        }
    }
    if i == x.len() {
        i < y.len()
    } else if i == y.len() {
        false
    } else {
        x[i] < y[i]
    }
}

/// The texts of `v` are in strictly increasing order.
pub open spec fn strictly_sorted(v: Seq<Seq<char>>) -> bool {
    forall|i: int, j: int| 0 <= i < j < v.len() ==> text_before(#[trigger] v[i], #[trigger] v[j])
}

/// `t` is one of the texts of `v`.
pub open spec fn has_text(v: Seq<Seq<char>>, t: Seq<char>) -> bool {
    exists|i: int| 0 <= i < v.len() && #[trigger] v[i] == t
}

/// The texts of `current` and `added` that are not in `fixed`.
pub open spec fn kept_tag(current: Seq<Seq<char>>, added: Seq<Seq<char>>, fixed: Seq<Seq<char>>, t: Seq<char>) -> bool {
    (has_text(current, t) || has_text(added, t)) && !has_text(fixed, t)
}

pub(crate) fn contains_text(v: &Vec<String>, t: &String) -> (r: bool)
    ensures
        r == has_text(texts(v@), t@),
{
    let mut i: usize = 0;
    while i < v.len()
        invariant
            0 <= i <= v@.len(),
            forall|j: int| 0 <= j < i ==> texts(v@)[j] != t@,
        decreases v@.len() - i,
    {
        if v[i] == *t {
            assert(texts(v@)[i as int] == t@);
            return true;
        }
        i = i + 1;
    }
    false
}

/// Inserts `t` into a strictly sorted list, unless it is there.
fn insert_sorted(out: &mut Vec<String>, t: String)
    requires
        strictly_sorted(texts(old(out)@)),
    ensures
        strictly_sorted(texts(final(out)@)),
        forall|x: Seq<char>| has_text(texts(final(out)@), x) <==> (has_text(texts(old(out)@), x) || x == t@),
{
    let ghost o = texts(out@);
    let mut p: usize = 0;
    while p < out.len() && text_lt(&out[p], &t)
        invariant
            0 <= p <= out@.len(),
            texts(out@) == o,
            forall|j: int| 0 <= j < p ==> text_before(o[j], t@),
        decreases out@.len() - p,
    {
        p = p + 1;
    }
    if p < out.len() && out[p] == t {
        proof {
            assert(o[p as int] == t@);
            assert(has_text(o, t@));
        }
        return;
    }
    proof {
        if p < o.len() {
            lemma_text_before_total(o[p as int], t@);
        }
    }
    let ghost tv = t@;
    out.insert(p, t);
    proof {
        let n = texts(out@);
        assert(n =~= o.insert(p as int, tv));
        assert forall|i: int, j: int| 0 <= i < j < n.len() implies text_before(#[trigger] n[i], #[trigger] n[j]) by {
            if j < p {
            } else if j == p {
            } else if i < p {
                lemma_text_before_transitive(n[i], tv, o[p as int]);
                if j - 1 > p {
                    lemma_text_before_transitive(n[i], o[p as int], o[j - 1]);
                }
            } else if i == p {
                if j - 1 > p {
                    lemma_text_before_transitive(tv, o[p as int], o[j - 1]);
                }
            } else {
            }
        }
        assert forall|x: Seq<char>| has_text(n, x) <==> (has_text(o, x) || x == tv) by {
            if has_text(n, x) {
                let i = choose|i: int| 0 <= i < n.len() && #[trigger] n[i] == x;
                if i < p {
                    assert(o[i] == x);
                } else if i > p {
                    assert(o[i - 1] == x);
                }
            }
            if has_text(o, x) {
                let i = choose|i: int| 0 <= i < o.len() && #[trigger] o[i] == x;
                if i < p {
                    assert(n[i] == x);
                } else {
                    assert(n[i + 1] == x);
                }
            }
            if x == tv {
                assert(n[p as int] == x);
            }
        }
    }
}

/// The tags of the continuous tag mode after adding `added` to `current`:
/// sorted, without duplicates, and without the tags that the other list
/// of the mode holds.
pub fn add_new_tags_to_continuous_tag(current: Vec<String>, added: Vec<String>, fixed_tags_from_other_section: &Vec<String>) -> (r: Vec<String>)
    ensures
        strictly_sorted(texts(r@)),
        forall|t: Seq<char>| has_text(texts(r@), t) <==> kept_tag(texts(current@), texts(added@), texts(fixed_tags_from_other_section@), t),
{
    let ghost cur = texts(current@);
    let ghost add = texts(added@);
    let ghost fix = texts(fixed_tags_from_other_section@);
    let mut out: Vec<String> = Vec::new();
    let mut i: usize = 0;
    while i < current.len()
        invariant
            0 <= i <= current@.len(),
            cur == texts(current@),
            fix == texts(fixed_tags_from_other_section@),
            strictly_sorted(texts(out@)),
            forall|t: Seq<char>| #![trigger has_text(texts(out@), t)] #![trigger has_text(cur.take(i as int), t)]
                has_text(texts(out@), t) <==> (has_text(cur.take(i as int), t) && !has_text(fix, t)),
        decreases current@.len() - i,
    {
        let tag = current[i].clone();
        assert(tag@ == cur[i as int]);
        let keep = !contains_text(fixed_tags_from_other_section, &tag);
        let ghost o = texts(out@);
        if keep {
            insert_sorted(&mut out, tag);
        }
        proof {
            assert forall|x: Seq<char>| #[trigger] has_text(cur.take(i + 1), x) <==> (has_text(cur.take(i as int), x) || x == cur[i as int]) by {
                if has_text(cur.take(i + 1), x) {
                    let j = choose|j: int| 0 <= j < i + 1 && #[trigger] cur.take(i + 1)[j] == x;
                    if j < i {
                        assert(cur.take(i as int)[j] == x);
                    }
                }
                if has_text(cur.take(i as int), x) {
                    let j = choose|j: int| 0 <= j < i && #[trigger] cur.take(i as int)[j] == x;
                    assert(cur.take(i + 1)[j] == x);
                }
                if x == cur[i as int] {
                    assert(cur.take(i + 1)[i as int] == x);
                }
            }
            assert forall|x: Seq<char>| has_text(texts(out@), x) <==> (has_text(cur.take(i + 1), x) && !has_text(fix, x)) by {
                if keep {
                    assert(has_text(texts(out@), x) <==> (has_text(o, x) || x == cur[i as int]));
                } else {
                    assert(texts(out@) == o);
                }
                assert(has_text(o, x) <==> (has_text(cur.take(i as int), x) && !has_text(fix, x)));
            }
        }
        i = i + 1;
    }
    let mut i: usize = 0;
    proof {
        assert(cur.len() == current@.len());
        assert(cur.take(cur.len() as int) =~= cur);
        assert(add.take(0) =~= Seq::<Seq<char>>::empty());
        assert forall|t: Seq<char>| has_text(texts(out@), t) <==> ((has_text(cur, t) || has_text(add.take(0), t)) && !has_text(fix, t)) by {
            assert(cur.take(cur.len() as int) == cur);
        }
    }
    while i < added.len()
        invariant
            0 <= i <= added@.len(),
            cur == texts(current@),
            add == texts(added@),
            fix == texts(fixed_tags_from_other_section@),
            strictly_sorted(texts(out@)),
            forall|t: Seq<char>| #![trigger has_text(texts(out@), t)] #![trigger has_text(add.take(i as int), t)] #![trigger has_text(cur, t)]
                has_text(texts(out@), t) <==> ((has_text(cur, t) || has_text(add.take(i as int), t)) && !has_text(fix, t)),
        decreases added@.len() - i,
    {
        let tag = added[i].clone();
        assert(tag@ == add[i as int]);
        let keep = !contains_text(fixed_tags_from_other_section, &tag);
        if keep {
            insert_sorted(&mut out, tag);
        }
        proof {
            assert forall|x: Seq<char>| has_text(add.take(i + 1), x) <==> (has_text(add.take(i as int), x) || x == add[i as int]) by {
                if has_text(add.take(i + 1), x) {
                    let j = choose|j: int| 0 <= j < i + 1 && #[trigger] add.take(i + 1)[j] == x;
                    if j < i {
                        assert(add.take(i as int)[j] == x);
                    }
                }
                if has_text(add.take(i as int), x) {
                    let j = choose|j: int| 0 <= j < i && #[trigger] add.take(i as int)[j] == x;
                    assert(add.take(i + 1)[j] == x);
                }
                if x == add[i as int] {
                    assert(add.take(i + 1)[i as int] == x);
                }
            }
        }
        i = i + 1;
    }
    proof {
        assert(add.take(add.len() as int) =~= add);
    }
    out
}

} // verus!
