//! Laws of the inline query text: the text of a query reads back as the
//! query.
use vstd::prelude::*;
use crate::chars::{has_prefix, in_class, join, kw_to, lemma_kw, lemma_span_len, lemma_trailing_len, lemma_word_sub, span_len, trim, valid_word, word, CharClass};
use crate::inline_data::{
    paren_word, parse_query, q_add, q_blacklist, q_continuous, q_keyword, q_paren_id, q_rest, q_search, q_set, q_sticker,
    q_user_sets, query_text, InlineQueryView, SetOperation, SimilarityAspect,
};
use crate::numbers::{dec, dec_int, lemma_dec_digits, lemma_std_parse_dec};
use crate::inline_data::{emojis_text, groups_at, more_groups, more_tags, more_terms, ms0, tags_at, term_at, terms_at, Groups};
use crate::emoji::{emoji_at, qualified_emoji, strip_variation, with_variant};

verus! {

/// Every tag is a non-empty run of tag characters.
pub open spec fn tags_wf(ts: Seq<Seq<char>>) -> bool {
    forall|i: int| 0 <= i < ts.len() ==> valid_word(#[trigger] ts[i], CharClass::Tag)
}

/// Every group holds at least one tag, and every tag is valid.
pub open spec fn groups_wf(g: Groups) -> bool {
    forall|i: int| 0 <= i < g.len() ==> (#[trigger] g[i]).len() > 0 && tags_wf(g[i])
}

/// Each part with a blank before it.
pub open spec fn spaced(ts: Seq<Seq<char>>) -> Seq<char>
    decreases ts.len(),
{
    if ts.len() == 0 {
        Seq::empty()
    } else {
        seq![' '] + ts[0] + spaced(ts.drop_first())
    }
}

/// Each group with `, ` before it.
pub open spec fn comma_groups(g: Groups) -> Seq<char>
    decreases g.len(),
{
    if g.len() == 0 {
        Seq::empty()
    } else {
        seq![',', ' '] + join(g[0], " "@) + comma_groups(g.drop_first())
    }
}

proof fn lemma_spaced_push(ts: Seq<Seq<char>>, t: Seq<char>)
    ensures
        spaced(ts.push(t)) == spaced(ts) + seq![' '] + t,
    decreases ts.len(),
{
    if ts.len() == 0 {
        assert(ts.push(t).drop_first() =~= Seq::<Seq<char>>::empty());
        assert(spaced(ts.push(t).drop_first()) =~= Seq::<char>::empty());
        assert(ts.push(t)[0] == t);
        assert(spaced(ts) =~= Seq::<char>::empty());
        assert(spaced(ts.push(t)) =~= seq![' '] + t);
    } else {
        assert(ts.push(t).drop_first() =~= ts.drop_first().push(t));
        lemma_spaced_push(ts.drop_first(), t);
        assert(spaced(ts.push(t)) =~= spaced(ts) + seq![' '] + t);
    }
}

/// A joined list is its first part followed by the others, each with a blank before it.
proof fn lemma_join_front(ts: Seq<Seq<char>>)
    requires
        ts.len() > 0,
    ensures
        join(ts, " "@) == ts[0] + spaced(ts.drop_first()),
    decreases ts.len(),
{
    reveal_strlit(" ");
    if ts.len() == 1 {
        assert(ts.drop_first() =~= Seq::<Seq<char>>::empty());
        assert(ts[0] + spaced(ts.drop_first()) =~= ts[0]);
    } else {
        let d = ts.drop_last();
        lemma_join_front(d);
        assert(d.drop_first().push(ts.last()) =~= ts.drop_first());
        lemma_spaced_push(d.drop_first(), ts.last());
        assert(join(ts, " "@) == join(d, " "@) + " "@ + ts.last());
        assert(" "@ =~= seq![' ']);
        assert(join(ts, " "@) =~= ts[0] + spaced(ts.drop_first()));
    }
}

proof fn lemma_comma_groups_push(g: Groups, t: Seq<Seq<char>>)
    ensures
        comma_groups(g.push(t)) == comma_groups(g) + seq![',', ' '] + join(t, " "@),
    decreases g.len(),
{
    if g.len() == 0 {
        assert(g.push(t).drop_first() =~= Seq::<Seq<Seq<char>>>::empty());
        assert(comma_groups(g.push(t).drop_first()) =~= Seq::<char>::empty());
        assert(g.push(t)[0] == t);
        assert(comma_groups(g) =~= Seq::<char>::empty());
        assert(comma_groups(g.push(t)) =~= seq![',', ' '] + join(t, " "@));
    } else {
        assert(g.push(t).drop_first() =~= g.drop_first().push(t));
        lemma_comma_groups_push(g.drop_first(), t);
        assert(comma_groups(g.push(t)) =~= comma_groups(g) + seq![',', ' '] + join(t, " "@));
    }
}

/// The text of groups is the first group followed by the others, each with `, ` before it.
proof fn lemma_groups_text_front(g: Groups)
    requires
        g.len() > 0,
    ensures
        crate::inline_data::groups_text(g) == join(g[0], " "@) + comma_groups(g.drop_first()),
    decreases g.len(),
{
    reveal_strlit(", ");
    if g.len() == 1 {
        assert(g.drop_first() =~= Seq::<Seq<Seq<char>>>::empty());
        assert(join(g[0], " "@) + comma_groups(g.drop_first()) =~= join(g[0], " "@));
    } else {
        let d = g.drop_last();
        lemma_groups_text_front(d);
        assert(d.drop_first().push(g.last()) =~= g.drop_first());
        lemma_comma_groups_push(d.drop_first(), g.last());
        assert(", "@ =~= seq![',', ' ']);
        assert(crate::inline_data::groups_text(g) =~= join(g[0], " "@) + comma_groups(g.drop_first()));
    }
}

/// Blanks end where a tag character or a comma follows.
proof fn lemma_ms0_stops(s: Seq<char>, i: int)
    requires
        0 <= i <= s.len(),
        i == s.len() || !in_class(s[i], CharClass::MultiSpace),
    ensures
        ms0(s, i) == i,
{
    if i < s.len() {
        assert(s.skip(i)[0] == s[i]);
    }
    lemma_span_len(s.skip(i), CharClass::MultiSpace, 0);
}

/// One blank and then a non-blank: the blanks end after the one.
proof fn lemma_ms0_one(s: Seq<char>, i: int)
    requires
        0 <= i,
        i + 1 <= s.len(),
        s[i] == ' ',
        i + 1 == s.len() || !in_class(s[i + 1], CharClass::MultiSpace),
    ensures
        ms0(s, i) == i + 1,
{
    assert(s.skip(i)[0] == s[i]);
    if i + 1 < s.len() {
        assert(s.skip(i)[1] == s[i + 1]);
    }
    lemma_span_len(s.skip(i), CharClass::MultiSpace, 1);
}

proof fn lemma_tag_char_not_blank(c: char)
    requires
        in_class(c, CharClass::Tag),
    ensures
        !in_class(c, CharClass::MultiSpace),
        c != ',',
{
}

/// Further tags, each after one blank, up to a comma or the end.
proof fn lemma_more_tags(s: Seq<char>, i: int, acc: Seq<Seq<char>>, ts: Seq<Seq<char>>)
    requires
        0 <= i,
        i + spaced(ts).len() <= s.len(),
        s.subrange(i, i + spaced(ts).len()) == spaced(ts),
        tags_wf(ts),
        i + spaced(ts).len() == s.len() || s[i + spaced(ts).len()] == ',',
    ensures
        more_tags(s, i, acc) == (acc + ts, i + spaced(ts).len()),
    decreases ts.len(),
{
    let n = spaced(ts).len() as int;
    if ts.len() == 0 {
        lemma_ms0_stops(s, i);
        assert(acc + ts =~= acc);
    } else {
        let t0 = ts[0];
        let rest = ts.drop_first();
        assert(valid_word(t0, CharClass::Tag));
        assert(spaced(ts) == seq![' '] + t0 + spaced(rest));
        assert(s[i] == spaced(ts)[0]);
        assert(s[i + 1] == spaced(ts)[1]);
        assert(spaced(ts)[1] == t0[0]);
        lemma_tag_char_not_blank(t0[0]);
        lemma_ms0_one(s, i);
        let e = i + 1 + t0.len();
        assert(s.subrange(i + 1, e) =~= t0) by {
            assert forall|k: int| 0 <= k < t0.len() implies s.subrange(i + 1, e)[k] == t0[k] by {
                assert(s.subrange(i, i + n)[k + 1] == s[i + 1 + k]);
                assert(spaced(ts)[k + 1] == t0[k]);
            }
        }
        assert(e == s.len() || !in_class(s[e], CharClass::Tag)) by {
            if e < s.len() {
                if e < i + n {
                    assert(s[e] == s.subrange(i, i + n)[e - i]);
                    assert(spaced(ts)[e - i] == spaced(rest)[0]);
                    assert(spaced(rest)[0] == ' ');
                }
            }
        }
        lemma_word_sub(s, i + 1, t0, CharClass::Tag);
        assert(s.subrange(e, e + spaced(rest).len()) =~= spaced(rest)) by {
            assert forall|k: int| 0 <= k < spaced(rest).len() implies s.subrange(e, e + spaced(rest).len())[k] == spaced(rest)[k] by {
                assert(s.subrange(i, i + n)[e - i + k] == s[e + k]);
                assert(spaced(ts)[e - i + k] == spaced(rest)[k]);
            }
        }
        assert(tags_wf(rest)) by {
            assert forall|k: int| 0 <= k < rest.len() implies valid_word(#[trigger] rest[k], CharClass::Tag) by {
                assert(rest[k] == ts[k + 1]);
            }
        }
        lemma_more_tags(s, e, acc.push(t0), rest);
        assert(acc.push(t0) + rest =~= acc + ts);
    }
}

/// A blank-separated list of tags at `p` (after `lead` blanks, 0 or 1), up
/// to a comma or the end.
proof fn lemma_tags_at(s: Seq<char>, p: int, lead: int, ts: Seq<Seq<char>>)
    requires
        0 <= p,
        lead == 0 || lead == 1,
        ts.len() > 0,
        tags_wf(ts),
        p + lead + join(ts, " "@).len() <= s.len(),
        lead == 1 ==> s[p] == ' ',
        s.subrange(p + lead, p + lead + join(ts, " "@).len()) == join(ts, " "@),
        p + lead + join(ts, " "@).len() == s.len() || s[p + lead + join(ts, " "@).len()] == ',',
    ensures
        tags_at(s, p) == (ts, p + lead + join(ts, " "@).len()),
{
    let j = join(ts, " "@);
    let a = p + lead;
    let end = a + j.len();
    lemma_join_front(ts);
    let t0 = ts[0];
    let rest = ts.drop_first();
    assert(valid_word(t0, CharClass::Tag));
    assert(s[a] == j[0]);
    assert(j[0] == t0[0]);
    lemma_tag_char_not_blank(t0[0]);
    if lead == 1 {
        lemma_ms0_one(s, p);
    } else {
        lemma_ms0_stops(s, p);
    }
    let e = a + t0.len();
    assert(s.subrange(a, e) =~= t0) by {
        assert forall|k: int| 0 <= k < t0.len() implies s.subrange(a, e)[k] == t0[k] by {
            assert(s.subrange(a, end)[k] == s[a + k]);
            assert(j[k] == t0[k]);
        }
    }
    assert(e == s.len() || !in_class(s[e], CharClass::Tag)) by {
        if e < s.len() {
            if e < end {
                assert(s[e] == s.subrange(a, end)[e - a]);
                assert(j[e - a] == spaced(rest)[0]);
            }
        }
    }
    lemma_word_sub(s, a, t0, CharClass::Tag);
    assert(s.subrange(e, e + spaced(rest).len()) =~= spaced(rest)) by {
        assert forall|k: int| 0 <= k < spaced(rest).len() implies s.subrange(e, e + spaced(rest).len())[k] == spaced(rest)[k] by {
            assert(s.subrange(a, end)[e - a + k] == s[e + k]);
            assert(j[e - a + k] == spaced(rest)[k]);
        }
    }
    assert(tags_wf(rest)) by {
        assert forall|k: int| 0 <= k < rest.len() implies valid_word(#[trigger] rest[k], CharClass::Tag) by {
            assert(rest[k] == ts[k + 1]);
        }
    }
    lemma_more_tags(s, e, seq![t0], rest);
    assert(seq![t0] + rest =~= ts);
    lemma_ms0_stops(s, end);
}

/// Further groups, each after `, `, up to the end.
proof fn lemma_more_groups(s: Seq<char>, i: int, acc: Groups, g: Groups)
    requires
        0 <= i,
        i + comma_groups(g).len() == s.len(),
        s.skip(i) == comma_groups(g),
        groups_wf(g),
    ensures
        more_groups(s, i, acc) == (acc + g, s.len() as int),
    decreases g.len(),
{
    if g.len() == 0 {
        assert(acc + g =~= acc);
    } else {
        let g0 = g[0];
        let rest = g.drop_first();
        let j = join(g0, " "@);
        assert(comma_groups(g) == seq![',', ' '] + j + comma_groups(rest));
        assert(s[i] == s.skip(i)[0]);
        let end = i + 2 + j.len();
        assert(s.subrange(i + 2, end) =~= j) by {
            assert forall|k: int| 0 <= k < j.len() implies s.subrange(i + 2, end)[k] == j[k] by {
                assert(s.skip(i)[2 + k] == s[i + 2 + k]);
            }
        }
        assert(s[i + 1] == s.skip(i)[1]);
        assert(end == s.len() || s[end] == ',') by {
            if end < s.len() {
                assert(s[end] == s.skip(i)[end - i]);
                assert(comma_groups(rest)[0] == ',');
            }
        }
        assert(g0.len() > 0 && tags_wf(g0));
        lemma_tags_at(s, i + 1, 1, g0);
        assert(s.skip(end) =~= comma_groups(rest)) by {
            assert forall|k: int| 0 <= k < comma_groups(rest).len() implies s.skip(end)[k] == comma_groups(rest)[k] by {
                assert(s.skip(i)[end - i + k] == s[end + k]);
            }
        }
        assert(groups_wf(rest)) by {
            assert forall|k: int| 0 <= k < rest.len() implies (#[trigger] rest[k]).len() > 0 && tags_wf(rest[k]) by {
                assert(rest[k] == g[k + 1]);
            }
        }
        lemma_more_groups(s, end, acc.push(g0), rest);
        assert(acc.push(g0) + rest =~= acc + g);
    }
}

/// Groups of tags after one blank, up to the end.
pub proof fn lemma_groups_at(s: Seq<char>, i: int, g: Groups)
    requires
        0 <= i,
        i + 1 + crate::inline_data::groups_text(g).len() == s.len(),
        s.skip(i) == seq![' '] + crate::inline_data::groups_text(g),
        groups_wf(g),
    ensures
        groups_at(s, i) == (g, s.len() as int),
{
    let gt = crate::inline_data::groups_text(g);
    assert(s[i] == s.skip(i)[0]);
    if g.len() == 0 {
        assert(gt =~= Seq::<char>::empty());
        lemma_ms0_one(s, i);
        let a = i + 1;
        assert(a == s.len());
        lemma_ms0_stops(s, a);
        assert(crate::chars::span_len(s.skip(a), CharClass::Tag) == 0);
        assert(tags_at(s, a) == (Seq::<Seq<char>>::empty(), a));
        assert(g =~= Seq::<Seq<Seq<char>>>::empty());
    } else {
        lemma_groups_text_front(g);
        let g0 = g[0];
        let j = join(g0, " "@);
        assert(g0.len() > 0 && tags_wf(g0));
        lemma_join_front(g0);
        assert(valid_word(g0[0], CharClass::Tag));
        assert(s[i + 1] == s.skip(i)[1]);
        assert(s.skip(i)[1] == gt[0]);
        assert(gt[0] == j[0]);
        assert(j[0] == g0[0][0]);
        lemma_tag_char_not_blank(g0[0][0]);
        lemma_ms0_one(s, i);
        let a = i + 1;
        let end = a + j.len();
        assert(s.subrange(a, end) =~= j) by {
            assert forall|k: int| 0 <= k < j.len() implies s.subrange(a, end)[k] == j[k] by {
                assert(s.skip(i)[1 + k] == s[a + k]);
            }
        }
        let rest = g.drop_first();
        assert(end == s.len() || s[end] == ',') by {
            if end < s.len() {
                assert(s[end] == s.skip(i)[end - i]);
                assert(comma_groups(rest)[0] == ',');
            }
        }
        lemma_tags_at(s, a, 0, g0);
        assert(s.skip(end) =~= comma_groups(rest)) by {
            assert forall|k: int| 0 <= k < comma_groups(rest).len() implies s.skip(end)[k] == comma_groups(rest)[k] by {
                assert(s.skip(i)[end - i + k] == s[end + k]);
            }
        }
        assert(groups_wf(rest)) by {
            assert forall|k: int| 0 <= k < rest.len() implies (#[trigger] rest[k]).len() > 0 && tags_wf(rest[k]) by {
                assert(rest[k] == g[k + 1]);
            }
        }
        lemma_more_groups(s, end, seq![g0], rest);
        assert(seq![g0] + rest =~= g);
        lemma_ms0_stops(s, s.len() as int);
    }
}

/// An emoji whose shown form reads back: the qualified form is a run of
/// emoji characters that the emoji table knows, and without variation
/// selectors it is the emoji.
pub open spec fn emoji_wf(e: Seq<char>) -> bool {
    &&& valid_word(with_variant(e), CharClass::EmojiText)
    &&& qualified_emoji(with_variant(e)) is Some
    &&& strip_variation(with_variant(e)) == e
}

pub open spec fn emojis_wf(es: Seq<Seq<char>>) -> bool {
    forall|i: int| 0 <= i < es.len() ==> emoji_wf(#[trigger] es[i])
}

/// The shown forms of the emoji.
pub open spec fn shown(es: Seq<Seq<char>>) -> Seq<Seq<char>> {
    es.map_values(|e: Seq<char>| with_variant(e))
}

proof fn lemma_emojis_text_join(es: Seq<Seq<char>>)
    ensures
        emojis_text(es) == join(shown(es), " "@),
    decreases es.len(),
{
    if es.len() > 1 {
        lemma_emojis_text_join(es.drop_last());
        assert(shown(es).drop_last() =~= shown(es.drop_last()));
    } else if es.len() == 1 {
        assert(shown(es)[0] == with_variant(es[0]));
    } else {
        assert(shown(es) =~= Seq::<Seq<char>>::empty());
    }
}

/// An emoji's shown form at `i`, ended by a blank or the end, is read as the emoji.
proof fn lemma_emoji_term(s: Seq<char>, i: int, e: Seq<char>)
    requires
        0 <= i,
        emoji_wf(e),
        i + with_variant(e).len() <= s.len(),
        s.subrange(i, i + with_variant(e).len()) == with_variant(e),
        i + with_variant(e).len() == s.len() || s[i + with_variant(e).len()] == ' ',
    ensures
        term_at(s, i) == Some((false, e, i + with_variant(e).len())),
{
    let d = with_variant(e);
    assert(s[i] == d[0]);
    assert(s.skip(i)[0] == s[i]);
    assert(span_len(s.skip(i), CharClass::Tag) == 0);
    lemma_word_sub(s, i, d, CharClass::EmojiText);
    assert(emoji_at(s, i) == Some((e, i + d.len())));
}

/// Emoji, each after one blank: read one by one into the emoji list.
proof fn lemma_more_terms_emoji(s: Seq<char>, i: int, tacc: Seq<Seq<char>>, eacc: Seq<Seq<char>>, es: Seq<Seq<char>>)
    requires
        0 <= i,
        emojis_wf(es),
        i + spaced(shown(es)).len() <= s.len(),
        s.subrange(i, i + spaced(shown(es)).len()) == spaced(shown(es)),
        i + spaced(shown(es)).len() == s.len() || s[i + spaced(shown(es)).len()] == ' ',
    ensures
        more_terms(s, i, tacc, eacc) == more_terms(s, i + spaced(shown(es)).len(), tacc, eacc + es),
    decreases es.len(),
{
    let sh = shown(es);
    let n = spaced(sh).len() as int;
    if es.len() == 0 {
        assert(eacc + es =~= eacc);
        assert(sh =~= Seq::<Seq<char>>::empty());
    } else {
        let e0 = es[0];
        let d = with_variant(e0);
        let rest = es.drop_first();
        assert(sh[0] == d);
        assert(sh.drop_first() =~= shown(rest));
        assert(spaced(sh) == seq![' '] + d + spaced(shown(rest)));
        assert(emoji_wf(e0));
        assert(s[i] == spaced(sh)[0]);
        assert(s[i + 1] == spaced(sh)[1]);
        assert(spaced(sh)[1] == d[0]);
        lemma_ms0_one(s, i);
        let e = i + 1 + d.len();
        assert(s.subrange(i + 1, e) =~= d) by {
            assert forall|k: int| 0 <= k < d.len() implies s.subrange(i + 1, e)[k] == d[k] by {
                assert(s.subrange(i, i + n)[k + 1] == s[i + 1 + k]);
                assert(spaced(sh)[k + 1] == d[k]);
            }
        }
        assert(e == s.len() || s[e] == ' ') by {
            if e < s.len() && e < i + n {
                assert(s[e] == s.subrange(i, i + n)[e - i]);
                assert(spaced(sh)[e - i] == spaced(shown(rest))[0]);
            }
        }
        lemma_emoji_term(s, i + 1, e0);
        assert(s.subrange(e, e + spaced(shown(rest)).len()) =~= spaced(shown(rest))) by {
            assert forall|k: int| 0 <= k < spaced(shown(rest)).len() implies s.subrange(e, e + spaced(shown(rest)).len())[k] == spaced(shown(rest))[k] by {
                assert(s.subrange(i, i + n)[e - i + k] == s[e + k]);
                assert(spaced(sh)[e - i + k] == spaced(shown(rest))[k]);
            }
        }
        assert(emojis_wf(rest)) by {
            assert forall|k: int| 0 <= k < rest.len() implies emoji_wf(#[trigger] rest[k]) by {
                assert(rest[k] == es[k + 1]);
            }
        }
        lemma_more_terms_emoji(s, e, tacc, eacc.push(e0), rest);
        assert(eacc.push(e0) + rest =~= eacc + es);
    }
}

/// Tags, each after one blank, up to the end: read into the tag list.
proof fn lemma_more_terms_tags(s: Seq<char>, i: int, tacc: Seq<Seq<char>>, eacc: Seq<Seq<char>>, ts: Seq<Seq<char>>)
    requires
        0 <= i,
        tags_wf(ts),
        i + spaced(ts).len() == s.len(),
        s.skip(i) == spaced(ts),
    ensures
        more_terms(s, i, tacc, eacc) == (tacc + ts, eacc, s.len() as int),
    decreases ts.len(),
{
    if ts.len() == 0 {
        lemma_ms0_stops(s, i);
        assert(tacc + ts =~= tacc);
    } else {
        let t0 = ts[0];
        let rest = ts.drop_first();
        assert(valid_word(t0, CharClass::Tag));
        assert(spaced(ts) == seq![' '] + t0 + spaced(rest));
        assert(s[i] == s.skip(i)[0]);
        assert(s[i + 1] == s.skip(i)[1]);
        lemma_tag_char_not_blank(t0[0]);
        lemma_ms0_one(s, i);
        let e = i + 1 + t0.len();
        assert(s.subrange(i + 1, e) =~= t0) by {
            assert forall|k: int| 0 <= k < t0.len() implies s.subrange(i + 1, e)[k] == t0[k] by {
                assert(s.skip(i)[k + 1] == s[i + 1 + k]);
            }
        }
        assert(e == s.len() || !in_class(s[e], CharClass::Tag)) by {
            if e < s.len() {
                assert(s[e] == s.skip(i)[e - i]);
                assert(spaced(ts)[e - i] == spaced(rest)[0]);
            }
        }
        lemma_word_sub(s, i + 1, t0, CharClass::Tag);
        assert(term_at(s, i + 1) == Some((true, t0, e)));
        assert(s.skip(e) =~= spaced(rest)) by {
            assert forall|k: int| 0 <= k < spaced(rest).len() implies s.skip(e)[k] == spaced(rest)[k] by {
                assert(s.skip(i)[e - i + k] == s[e + k]);
            }
        }
        assert(tags_wf(rest)) by {
            assert forall|k: int| 0 <= k < rest.len() implies valid_word(#[trigger] rest[k], CharClass::Tag) by {
                assert(rest[k] == ts[k + 1]);
            }
        }
        lemma_more_terms_tags(s, e, tacc.push(t0), eacc, rest);
        assert(tacc.push(t0) + rest =~= tacc + ts);
    }
}

/// A keyword that differs from the text at `j` does not start it.
proof fn lemma_kw_miss(s: Seq<char>, kw: Seq<char>, j: int)
    requires
        0 <= j < kw.len(),
        j < s.len() ==> s[j] != kw[j],
    ensures
        kw_to(s, 0, kw) is None,
{
    if kw_to(s, 0, kw) is Some {
        assert(has_prefix(s.skip(0), kw));
        assert(s.skip(0)[j] == kw[j]);
        assert(s.skip(0)[j] == s[j]);
    }
}

/// A keyword, a word and `)` at the start of the text.
proof fn lemma_paren_word(kw: Seq<char>, w: Seq<char>, class: CharClass, tail: Seq<char>)
    requires
        valid_word(w, class),
        !in_class(')', class),
    ensures
        kw_to(kw + w + ")"@ + tail, 0, kw) == Some(kw.len() as int),
        word(kw + w + ")"@ + tail, kw.len() as int, class) == Some((kw.len() + w.len()) as int),
        kw_to(kw + w + ")"@ + tail, (kw.len() + w.len()) as int, ")"@) == Some((kw.len() + w.len() + 1) as int),
        paren_word(kw + w + ")"@ + tail, kw, class) == Some((w, (kw.len() + w.len() + 1) as int)),
{
    reveal_strlit(")");
    let s = kw + w + ")"@ + tail;
    assert(s.subrange(0, kw.len() as int) =~= kw);
    lemma_kw(s, 0, kw);
    let e = (kw.len() + w.len()) as int;
    assert(s.subrange(kw.len() as int, e) =~= w);
    assert(s[e] == ')');
    lemma_word_sub(s, kw.len() as int, w, class);
    assert(s.subrange(e, e + 1) =~= ")"@);
    lemma_kw(s, e, ")"@);
}

/// A text that ends in one blank: the blanks at the end reach the end.
proof fn lemma_ends_blank(s: Seq<char>)
    requires
        s.len() > 0,
        s[s.len() - 1] == ' ',
    ensures
        ms0(s, s.len() - 1) == s.len(),
{
    lemma_ms0_one(s, s.len() - 1);
}

/// A title with no blanks at its ends, after one blank, trims to itself.
proof fn lemma_trim_title(t: Seq<char>)
    requires
        t.len() > 0,
        !in_class(t[0], CharClass::UnicodeSpace),
        !in_class(t[t.len() - 1], CharClass::UnicodeSpace),
    ensures
        trim(seq![' '] + t) == t,
{
    let s = seq![' '] + t;
    assert(s[1] == t[0]);
    lemma_span_len(s, CharClass::UnicodeSpace, 1);
    assert(s[s.len() - 1] == t[t.len() - 1]);
    lemma_trailing_len(s, CharClass::UnicodeSpace, 0);
    assert(s.subrange(1, s.len() as int) =~= t);
}

/// The text of the search for tags and emoji.
pub open spec fn search_text(tags: Seq<Seq<char>>, emoji: Seq<Seq<char>>) -> Seq<char> {
    let e = emojis_text(emoji);
    e + (if e.len() > 0 { " "@ } else { Seq::empty() }) + join(tags, " "@)
}

/// The text of a search reads back as the search.
#[verifier::spinoff_prover]
#[verifier::rlimit(50)]
proof fn lemma_search(tags: Seq<Seq<char>>, emoji: Seq<Seq<char>>)
    requires
        tags_wf(tags),
        emojis_wf(emoji),
    ensures
        q_search(search_text(tags, emoji)) == Some((InlineQueryView::SearchStickers(tags, emoji), search_text(tags, emoji).len() as int)),
{
    reveal_strlit(" ");
    let s = search_text(tags, emoji);
    let e = emojis_text(emoji);
    lemma_emojis_text_join(emoji);
    if emoji.len() == 0 {
        assert(shown(emoji) =~= Seq::<Seq<char>>::empty());
        assert(e =~= Seq::<char>::empty());
        assert(s =~= join(tags, " "@));
        if tags.len() == 0 {
            assert(s =~= Seq::<char>::empty());
            lemma_ms0_stops(s, 0);
            assert(span_len(s.skip(0), CharClass::Tag) == 0);
            assert(span_len(s.skip(0), CharClass::EmojiText) == 0);
            assert(term_at(s, 0) is None);
            assert(tags =~= Seq::<Seq<char>>::empty());
            assert(terms_at(s, 0) == (tags, emoji, 0int));
        } else {
            lemma_join_front(tags);
            let t0 = tags[0];
            let rest = tags.drop_first();
            assert(valid_word(t0, CharClass::Tag));
            assert(s[0] == t0[0]);
            lemma_tag_char_not_blank(t0[0]);
            lemma_ms0_stops(s, 0);
            let n0 = t0.len() as int;
            assert(s.subrange(0, n0) =~= t0);
            assert(n0 == s.len() || !in_class(s[n0], CharClass::Tag)) by {
                if n0 < s.len() {
                    assert(s[n0] == spaced(rest)[0]);
                }
            }
            lemma_word_sub(s, 0, t0, CharClass::Tag);
            assert(term_at(s, 0) == Some((true, t0, n0)));
            assert(s.skip(n0) =~= spaced(rest));
            assert(tags_wf(rest)) by {
                assert forall|k: int| 0 <= k < rest.len() implies valid_word(#[trigger] rest[k], CharClass::Tag) by {
                    assert(rest[k] == tags[k + 1]);
                }
            }
            lemma_more_terms_tags(s, n0, seq![t0], Seq::empty(), rest);
            assert(seq![t0] + rest =~= tags);
            lemma_ms0_stops(s, s.len() as int);
            assert(emoji =~= Seq::<Seq<char>>::empty());
            assert(terms_at(s, 0) == (tags, emoji, s.len() as int));
        }
    } else {
        let sh = shown(emoji);
        lemma_join_front(sh);
        let e0 = emoji[0];
        let d0 = with_variant(e0);
        let erest = emoji.drop_first();
        assert(sh[0] == d0);
        assert(sh.drop_first() =~= shown(erest));
        assert(emoji_wf(e0));
        assert(e.len() >= d0.len() > 0);
        let n0 = d0.len() as int;
        let ne = e.len() as int;
        let after = " "@ + join(tags, " "@);
        assert(s =~= e + after);
        assert(s[0] == d0[0]);
        lemma_ms0_stops(s, 0);
        assert(s.subrange(0, n0) =~= d0);
        assert(s[n0] == ' ') by {
            if n0 < ne {
                assert(s[n0] == e[n0]);
                assert(e[n0] == spaced(shown(erest))[0]);
            } else {
                assert(s[n0] == after[0]);
            }
        }
        lemma_emoji_term(s, 0, e0);
        assert(s.subrange(n0, ne) =~= spaced(shown(erest)));
        assert(emojis_wf(erest)) by {
            assert forall|k: int| 0 <= k < erest.len() implies emoji_wf(#[trigger] erest[k]) by {
                assert(erest[k] == emoji[k + 1]);
            }
        }
        assert(s[ne] == ' ');
        lemma_more_terms_emoji(s, n0, Seq::empty(), seq![e0], erest);
        assert(seq![e0] + erest =~= emoji);
        if tags.len() == 0 {
            assert(join(tags, " "@) =~= Seq::<char>::empty());
            assert(s.len() == ne + 1);
            lemma_ms0_one(s, ne);
            assert(span_len(s.skip(s.len() as int), CharClass::Tag) == 0);
            assert(span_len(s.skip(s.len() as int), CharClass::EmojiText) == 0);
            assert(term_at(s, s.len() as int) is None);
            assert(tags =~= Seq::<Seq<char>>::empty());
            assert(more_terms(s, ne, Seq::empty(), emoji) == (tags, emoji, ne));
            assert(terms_at(s, 0) == (tags, emoji, s.len() as int));
        } else {
            lemma_join_front(tags);
            assert(after =~= spaced(tags));
            assert(s.skip(ne) =~= spaced(tags));
            lemma_more_terms_tags(s, ne, Seq::empty(), emoji, tags);
            assert(Seq::<Seq<char>>::empty() + tags =~= tags);
            lemma_ms0_stops(s, s.len() as int);
            assert(terms_at(s, 0) == (tags, emoji, s.len() as int));
        }
    }
}

#[verifier::spinoff_prover]
#[verifier::rlimit(50)]
proof fn lemma_rt_contains(id: Seq<char>)
    requires
        valid_word(id, CharClass::StickerId),
    ensures
        parse_query(query_text(InlineQueryView::ListAllSetsThatContainSticker(id))) == Some(InlineQueryView::ListAllSetsThatContainSticker(id)),
{
    reveal_strlit(" ");
    reveal_strlit("(-cont)");
    reveal_strlit("(add:");
    reveal_strlit("(alias)");
    reveal_strlit("(blacklist)");
    reveal_strlit("(color:");
    reveal_strlit("(cont)");
    reveal_strlit("(contains:");
    reveal_strlit("(dates:");
    reveal_strlit("(dup)");
    reveal_strlit("(embed)");
    reveal_strlit("(embed:");
    reveal_strlit("(emo)");
    reveal_strlit("(overlap:");
    reveal_strlit("(rec)");
    reveal_strlit("(s:");
    reveal_strlit("(se:");
    reveal_strlit("(settags:");
    reveal_strlit("(su:");
    reveal_strlit("(tag)");
    reveal_strlit("(usersets:");
    reveal_strlit(")");
    reveal_strlit(") ");
    let s = query_text(InlineQueryView::ListAllSetsThatContainSticker(id));
    assert(s =~= "(contains:"@ + id + ")"@ + " "@);
    lemma_kw_miss(s, "(s:"@, 1);
    lemma_kw_miss(s, "(se:"@, 1);
    lemma_kw_miss(s, "(su:"@, 1);
    lemma_paren_word("(contains:"@, id, CharClass::StickerId, " "@);
    lemma_ends_blank(s);
}

#[verifier::spinoff_prover]
#[verifier::rlimit(50)]
proof fn lemma_rt_overlap(id: Seq<char>)
    requires
        valid_word(id, CharClass::StickerId),
    ensures
        parse_query(query_text(InlineQueryView::ListOverlappingSets(id))) == Some(InlineQueryView::ListOverlappingSets(id)),
{
    reveal_strlit(" ");
    reveal_strlit("(-cont)");
    reveal_strlit("(add:");
    reveal_strlit("(alias)");
    reveal_strlit("(blacklist)");
    reveal_strlit("(color:");
    reveal_strlit("(cont)");
    reveal_strlit("(contains:");
    reveal_strlit("(dates:");
    reveal_strlit("(dup)");
    reveal_strlit("(embed)");
    reveal_strlit("(embed:");
    reveal_strlit("(emo)");
    reveal_strlit("(overlap:");
    reveal_strlit("(rec)");
    reveal_strlit("(s:");
    reveal_strlit("(se:");
    reveal_strlit("(settags:");
    reveal_strlit("(su:");
    reveal_strlit("(tag)");
    reveal_strlit("(usersets:");
    reveal_strlit(")");
    reveal_strlit(") ");
    let s = query_text(InlineQueryView::ListOverlappingSets(id));
    assert(s =~= "(overlap:"@ + id + ")"@ + " "@);
    lemma_kw_miss(s, "(s:"@, 1);
    lemma_kw_miss(s, "(se:"@, 1);
    lemma_kw_miss(s, "(su:"@, 1);
    lemma_kw_miss(s, "(contains:"@, 1);
    lemma_paren_word("(overlap:"@, id, CharClass::StickerId, " "@);
    lemma_ends_blank(s);
}

#[verifier::spinoff_prover]
#[verifier::rlimit(50)]
proof fn lemma_rt_dates(id: Seq<char>)
    requires
        valid_word(id, CharClass::StickerId),
    ensures
        parse_query(query_text(InlineQueryView::ListSetStickersByDate(id))) == Some(InlineQueryView::ListSetStickersByDate(id)),
{
    reveal_strlit(" ");
    reveal_strlit("(-cont)");
    reveal_strlit("(add:");
    reveal_strlit("(alias)");
    reveal_strlit("(blacklist)");
    reveal_strlit("(color:");
    reveal_strlit("(cont)");
    reveal_strlit("(contains:");
    reveal_strlit("(dates:");
    reveal_strlit("(dup)");
    reveal_strlit("(embed)");
    reveal_strlit("(embed:");
    reveal_strlit("(emo)");
    reveal_strlit("(overlap:");
    reveal_strlit("(rec)");
    reveal_strlit("(s:");
    reveal_strlit("(se:");
    reveal_strlit("(settags:");
    reveal_strlit("(su:");
    reveal_strlit("(tag)");
    reveal_strlit("(usersets:");
    reveal_strlit(")");
    reveal_strlit(") ");
    let s = query_text(InlineQueryView::ListSetStickersByDate(id));
    assert(s =~= "(dates:"@ + id + ")"@ + " "@);
    lemma_kw_miss(s, "(s:"@, 1);
    lemma_kw_miss(s, "(se:"@, 1);
    lemma_kw_miss(s, "(su:"@, 1);
    lemma_kw_miss(s, "(contains:"@, 1);
    lemma_kw_miss(s, "(overlap:"@, 1);
    lemma_paren_word("(dates:"@, id, CharClass::StickerId, " "@);
    lemma_ends_blank(s);
}

#[verifier::spinoff_prover]
#[verifier::rlimit(50)]
proof fn lemma_rt_settags(id: Seq<char>)
    requires
        valid_word(id, CharClass::StickerId),
    ensures
        parse_query(query_text(InlineQueryView::ListAllTagsFromSet(id))) == Some(InlineQueryView::ListAllTagsFromSet(id)),
{
    reveal_strlit(" ");
    reveal_strlit("(-cont)");
    reveal_strlit("(add:");
    reveal_strlit("(alias)");
    reveal_strlit("(blacklist)");
    reveal_strlit("(color:");
    reveal_strlit("(cont)");
    reveal_strlit("(contains:");
    reveal_strlit("(dates:");
    reveal_strlit("(dup)");
    reveal_strlit("(embed)");
    reveal_strlit("(embed:");
    reveal_strlit("(emo)");
    reveal_strlit("(overlap:");
    reveal_strlit("(rec)");
    reveal_strlit("(s:");
    reveal_strlit("(se:");
    reveal_strlit("(settags:");
    reveal_strlit("(su:");
    reveal_strlit("(tag)");
    reveal_strlit("(usersets:");
    reveal_strlit(")");
    reveal_strlit(") ");
    let s = query_text(InlineQueryView::ListAllTagsFromSet(id));
    assert(s =~= "(settags:"@ + id + ")"@ + " "@);
    lemma_kw_miss(s, "(s:"@, 2);
    lemma_kw_miss(s, "(se:"@, 3);
    lemma_kw_miss(s, "(su:"@, 2);
    lemma_kw_miss(s, "(contains:"@, 1);
    lemma_kw_miss(s, "(overlap:"@, 1);
    lemma_kw_miss(s, "(dates:"@, 1);
    lemma_kw_miss(s, "(usersets:"@, 1);
    lemma_paren_word("(settags:"@, id, CharClass::StickerId, " "@);
    lemma_ends_blank(s);
}

#[verifier::spinoff_prover]
#[verifier::rlimit(50)]
proof fn lemma_rt_color(id: Seq<char>)
    requires
        valid_word(id, CharClass::StickerId),
    ensures
        parse_query(query_text(InlineQueryView::ListSimilarStickers(id, SimilarityAspect::Color))) == Some(InlineQueryView::ListSimilarStickers(id, SimilarityAspect::Color)),
{
    reveal_strlit(" ");
    reveal_strlit("(-cont)");
    reveal_strlit("(add:");
    reveal_strlit("(alias)");
    reveal_strlit("(blacklist)");
    reveal_strlit("(color:");
    reveal_strlit("(cont)");
    reveal_strlit("(contains:");
    reveal_strlit("(dates:");
    reveal_strlit("(dup)");
    reveal_strlit("(embed)");
    reveal_strlit("(embed:");
    reveal_strlit("(emo)");
    reveal_strlit("(overlap:");
    reveal_strlit("(rec)");
    reveal_strlit("(s:");
    reveal_strlit("(se:");
    reveal_strlit("(settags:");
    reveal_strlit("(su:");
    reveal_strlit("(tag)");
    reveal_strlit("(usersets:");
    reveal_strlit(")");
    reveal_strlit(") ");
    let s = query_text(InlineQueryView::ListSimilarStickers(id, SimilarityAspect::Color));
    assert(s =~= "(color:"@ + id + ")"@ + " "@);
    lemma_kw_miss(s, "(s:"@, 1);
    lemma_kw_miss(s, "(se:"@, 1);
    lemma_kw_miss(s, "(su:"@, 1);
    lemma_kw_miss(s, "(contains:"@, 3);
    lemma_kw_miss(s, "(overlap:"@, 1);
    lemma_kw_miss(s, "(dates:"@, 1);
    lemma_kw_miss(s, "(usersets:"@, 1);
    lemma_kw_miss(s, "(settags:"@, 1);
    lemma_kw_miss(s, "(add:"@, 1);
    lemma_kw_miss(s, "(blacklist)"@, 1);
    lemma_kw_miss(s, "(tag)"@, 1);
    lemma_kw_miss(s, "(alias)"@, 1);
    lemma_kw_miss(s, "(embed)"@, 1);
    lemma_kw_miss(s, "(dup)"@, 1);
    lemma_kw_miss(s, "(emo)"@, 1);
    lemma_kw_miss(s, "(rec)"@, 1);
    lemma_kw_miss(s, "(cont)"@, 3);
    lemma_kw_miss(s, "(-cont)"@, 1);
    lemma_paren_word("(color:"@, id, CharClass::StickerId, " "@);
    lemma_ends_blank(s);
}

#[verifier::spinoff_prover]
#[verifier::rlimit(50)]
proof fn lemma_rt_embed_similar(id: Seq<char>)
    requires
        valid_word(id, CharClass::StickerId),
    ensures
        parse_query(query_text(InlineQueryView::ListSimilarStickers(id, SimilarityAspect::Embedding))) == Some(InlineQueryView::ListSimilarStickers(id, SimilarityAspect::Embedding)),
{
    reveal_strlit(" ");
    reveal_strlit("(-cont)");
    reveal_strlit("(add:");
    reveal_strlit("(alias)");
    reveal_strlit("(blacklist)");
    reveal_strlit("(color:");
    reveal_strlit("(cont)");
    reveal_strlit("(contains:");
    reveal_strlit("(dates:");
    reveal_strlit("(dup)");
    reveal_strlit("(embed)");
    reveal_strlit("(embed:");
    reveal_strlit("(emo)");
    reveal_strlit("(overlap:");
    reveal_strlit("(rec)");
    reveal_strlit("(s:");
    reveal_strlit("(se:");
    reveal_strlit("(settags:");
    reveal_strlit("(su:");
    reveal_strlit("(tag)");
    reveal_strlit("(usersets:");
    reveal_strlit(")");
    reveal_strlit(") ");
    let s = query_text(InlineQueryView::ListSimilarStickers(id, SimilarityAspect::Embedding));
    assert(s =~= "(embed:"@ + id + ")"@ + " "@);
    lemma_kw_miss(s, "(s:"@, 1);
    lemma_kw_miss(s, "(se:"@, 1);
    lemma_kw_miss(s, "(su:"@, 1);
    lemma_kw_miss(s, "(contains:"@, 1);
    lemma_kw_miss(s, "(overlap:"@, 1);
    lemma_kw_miss(s, "(dates:"@, 1);
    lemma_kw_miss(s, "(usersets:"@, 1);
    lemma_kw_miss(s, "(settags:"@, 1);
    lemma_kw_miss(s, "(add:"@, 1);
    lemma_kw_miss(s, "(blacklist)"@, 1);
    lemma_kw_miss(s, "(tag)"@, 1);
    lemma_kw_miss(s, "(alias)"@, 1);
    lemma_kw_miss(s, "(embed)"@, 6);
    lemma_kw_miss(s, "(dup)"@, 1);
    lemma_kw_miss(s, "(emo)"@, 3);
    lemma_kw_miss(s, "(rec)"@, 1);
    lemma_kw_miss(s, "(cont)"@, 1);
    lemma_kw_miss(s, "(-cont)"@, 1);
    lemma_kw_miss(s, "(color:"@, 1);
    lemma_paren_word("(embed:"@, id, CharClass::StickerId, " "@);
    lemma_ends_blank(s);
}

#[verifier::spinoff_prover]
#[verifier::rlimit(50)]
proof fn lemma_rt_dup()
    ensures
        parse_query(query_text(InlineQueryView::ListMostDuplicatedStickers)) == Some(InlineQueryView::ListMostDuplicatedStickers),
{
    reveal_strlit("(-cont)");
    reveal_strlit("(add:");
    reveal_strlit("(alias)");
    reveal_strlit("(blacklist)");
    reveal_strlit("(color:");
    reveal_strlit("(cont)");
    reveal_strlit("(contains:");
    reveal_strlit("(dates:");
    reveal_strlit("(dup)");
    reveal_strlit("(dup) ");
    reveal_strlit("(embed)");
    reveal_strlit("(embed:");
    reveal_strlit("(emo)");
    reveal_strlit("(overlap:");
    reveal_strlit("(rec)");
    reveal_strlit("(s:");
    reveal_strlit("(se:");
    reveal_strlit("(settags:");
    reveal_strlit("(su:");
    reveal_strlit("(tag)");
    reveal_strlit("(usersets:");
    let s = query_text(InlineQueryView::ListMostDuplicatedStickers);
    assert(s =~= "(dup)"@ + seq![' ']);
    lemma_kw_miss(s, "(s:"@, 1);
    lemma_kw_miss(s, "(se:"@, 1);
    lemma_kw_miss(s, "(su:"@, 1);
    lemma_kw_miss(s, "(contains:"@, 1);
    lemma_kw_miss(s, "(overlap:"@, 1);
    lemma_kw_miss(s, "(dates:"@, 2);
    lemma_kw_miss(s, "(usersets:"@, 1);
    lemma_kw_miss(s, "(settags:"@, 1);
    lemma_kw_miss(s, "(add:"@, 1);
    lemma_kw_miss(s, "(blacklist)"@, 1);
    lemma_kw_miss(s, "(tag)"@, 1);
    lemma_kw_miss(s, "(alias)"@, 1);
    lemma_kw_miss(s, "(embed)"@, 1);
    assert(s.subrange(0, 5) =~= "(dup)"@);
    lemma_kw(s, 0, "(dup)"@);
    lemma_ends_blank(s);
}

#[verifier::spinoff_prover]
#[verifier::rlimit(50)]
proof fn lemma_rt_emo()
    ensures
        parse_query(query_text(InlineQueryView::ListMostUsedEmojis)) == Some(InlineQueryView::ListMostUsedEmojis),
{
    reveal_strlit("(-cont)");
    reveal_strlit("(add:");
    reveal_strlit("(alias)");
    reveal_strlit("(blacklist)");
    reveal_strlit("(color:");
    reveal_strlit("(cont)");
    reveal_strlit("(contains:");
    reveal_strlit("(dates:");
    reveal_strlit("(dup)");
    reveal_strlit("(embed)");
    reveal_strlit("(embed:");
    reveal_strlit("(emo)");
    reveal_strlit("(emo) ");
    reveal_strlit("(overlap:");
    reveal_strlit("(rec)");
    reveal_strlit("(s:");
    reveal_strlit("(se:");
    reveal_strlit("(settags:");
    reveal_strlit("(su:");
    reveal_strlit("(tag)");
    reveal_strlit("(usersets:");
    let s = query_text(InlineQueryView::ListMostUsedEmojis);
    assert(s =~= "(emo)"@ + seq![' ']);
    lemma_kw_miss(s, "(s:"@, 1);
    lemma_kw_miss(s, "(se:"@, 1);
    lemma_kw_miss(s, "(su:"@, 1);
    lemma_kw_miss(s, "(contains:"@, 1);
    lemma_kw_miss(s, "(overlap:"@, 1);
    lemma_kw_miss(s, "(dates:"@, 1);
    lemma_kw_miss(s, "(usersets:"@, 1);
    lemma_kw_miss(s, "(settags:"@, 1);
    lemma_kw_miss(s, "(add:"@, 1);
    lemma_kw_miss(s, "(blacklist)"@, 1);
    lemma_kw_miss(s, "(tag)"@, 1);
    lemma_kw_miss(s, "(alias)"@, 1);
    lemma_kw_miss(s, "(embed)"@, 3);
    lemma_kw_miss(s, "(dup)"@, 1);
    assert(s.subrange(0, 5) =~= "(emo)"@);
    lemma_kw(s, 0, "(emo)"@);
    lemma_ends_blank(s);
}

#[verifier::spinoff_prover]
#[verifier::rlimit(50)]
proof fn lemma_rt_rec()
    ensures
        parse_query(query_text(InlineQueryView::ListRecommendationModeRecommendations)) == Some(InlineQueryView::ListRecommendationModeRecommendations),
{
    reveal_strlit("(-cont)");
    reveal_strlit("(add:");
    reveal_strlit("(alias)");
    reveal_strlit("(blacklist)");
    reveal_strlit("(color:");
    reveal_strlit("(cont)");
    reveal_strlit("(contains:");
    reveal_strlit("(dates:");
    reveal_strlit("(dup)");
    reveal_strlit("(embed)");
    reveal_strlit("(embed:");
    reveal_strlit("(emo)");
    reveal_strlit("(overlap:");
    reveal_strlit("(rec)");
    reveal_strlit("(rec) ");
    reveal_strlit("(s:");
    reveal_strlit("(se:");
    reveal_strlit("(settags:");
    reveal_strlit("(su:");
    reveal_strlit("(tag)");
    reveal_strlit("(usersets:");
    let s = query_text(InlineQueryView::ListRecommendationModeRecommendations);
    assert(s =~= "(rec)"@ + seq![' ']);
    lemma_kw_miss(s, "(s:"@, 1);
    lemma_kw_miss(s, "(se:"@, 1);
    lemma_kw_miss(s, "(su:"@, 1);
    lemma_kw_miss(s, "(contains:"@, 1);
    lemma_kw_miss(s, "(overlap:"@, 1);
    lemma_kw_miss(s, "(dates:"@, 1);
    lemma_kw_miss(s, "(usersets:"@, 1);
    lemma_kw_miss(s, "(settags:"@, 1);
    lemma_kw_miss(s, "(add:"@, 1);
    lemma_kw_miss(s, "(blacklist)"@, 1);
    lemma_kw_miss(s, "(tag)"@, 1);
    lemma_kw_miss(s, "(alias)"@, 1);
    lemma_kw_miss(s, "(embed)"@, 1);
    lemma_kw_miss(s, "(dup)"@, 1);
    lemma_kw_miss(s, "(emo)"@, 1);
    assert(s.subrange(0, 5) =~= "(rec)"@);
    lemma_kw(s, 0, "(rec)"@);
    lemma_ends_blank(s);
}

#[verifier::spinoff_prover]
#[verifier::rlimit(50)]
proof fn lemma_rt_sticker(g: Groups, id: Seq<char>)
    requires
        valid_word(id, CharClass::StickerId),
        groups_wf(g),
    ensures
        parse_query(query_text(InlineQueryView::SearchTagsForSticker(g, id))) == Some(InlineQueryView::SearchTagsForSticker(g, id)),
{
    reveal_strlit(" ");
    reveal_strlit("(s:");
    reveal_strlit(")");
    reveal_strlit(") ");
    let gt = crate::inline_data::groups_text(g);
    let s = query_text(InlineQueryView::SearchTagsForSticker(g, id));
    assert(s =~= "(s:"@ + id + ")"@ + (seq![' '] + gt));
    lemma_paren_word("(s:"@, id, CharClass::StickerId, seq![' '] + gt);
    let i = (3 + id.len() + 1) as int;
    assert(s.skip(i) =~= seq![' '] + gt);
    lemma_groups_at(s, i, g);
    lemma_ms0_stops(s, s.len() as int);
}

#[verifier::spinoff_prover]
#[verifier::rlimit(50)]
proof fn lemma_rt_set_tag(g: Groups, name: Seq<char>)
    requires
        valid_word(name, CharClass::SetName),
        groups_wf(g),
    ensures
        parse_query(query_text(InlineQueryView::SearchTagsForStickerSet(g, name, SetOperation::Tag)))
            == Some(InlineQueryView::SearchTagsForStickerSet(g, name, SetOperation::Tag)),
{
    reveal_strlit(" ");
    reveal_strlit("(s:");
    reveal_strlit("(se:");
    reveal_strlit("(su:");
    reveal_strlit(")");
    reveal_strlit(") ");
    let gt = crate::inline_data::groups_text(g);
    let s = query_text(InlineQueryView::SearchTagsForStickerSet(g, name, SetOperation::Tag));
    assert(s =~= "(se:"@ + name + ")"@ + (seq![' '] + gt));
    lemma_kw_miss(s, "(s:"@, 2);
    lemma_paren_word("(se:"@, name, CharClass::SetName, seq![' '] + gt);
    let i = (4 + name.len() + 1) as int;
    assert(s.skip(i) =~= seq![' '] + gt);
    lemma_groups_at(s, i, g);
    lemma_ms0_stops(s, s.len() as int);
}

#[verifier::spinoff_prover]
#[verifier::rlimit(50)]
proof fn lemma_rt_set_untag(g: Groups, name: Seq<char>)
    requires
        valid_word(name, CharClass::SetName),
        groups_wf(g),
    ensures
        parse_query(query_text(InlineQueryView::SearchTagsForStickerSet(g, name, SetOperation::Untag)))
            == Some(InlineQueryView::SearchTagsForStickerSet(g, name, SetOperation::Untag)),
{
    reveal_strlit(" ");
    reveal_strlit("(s:");
    reveal_strlit("(se:");
    reveal_strlit("(su:");
    reveal_strlit(")");
    reveal_strlit(") ");
    let gt = crate::inline_data::groups_text(g);
    let s = query_text(InlineQueryView::SearchTagsForStickerSet(g, name, SetOperation::Untag));
    assert(s =~= "(su:"@ + name + ")"@ + (seq![' '] + gt));
    lemma_kw_miss(s, "(s:"@, 2);
    lemma_kw_miss(s, "(se:"@, 2);
    lemma_paren_word("(su:"@, name, CharClass::SetName, seq![' '] + gt);
    let i = (4 + name.len() + 1) as int;
    assert(s.skip(i) =~= seq![' '] + gt);
    lemma_groups_at(s, i, g);
    lemma_ms0_stops(s, s.len() as int);
}

#[verifier::spinoff_prover]
#[verifier::rlimit(50)]
proof fn lemma_rt_cont_tag(g: Groups)
    requires
        groups_wf(g),
    ensures
        parse_query(query_text(InlineQueryView::SearchTagsForContinuousTagMode(g, SetOperation::Tag)))
            == Some(InlineQueryView::SearchTagsForContinuousTagMode(g, SetOperation::Tag)),
{
    reveal_strlit(" ");
    reveal_strlit("(-cont)");
    reveal_strlit("(add:");
    reveal_strlit("(alias)");
    reveal_strlit("(blacklist)");
    reveal_strlit("(color:");
    reveal_strlit("(cont)");
    reveal_strlit("(cont) ");
    reveal_strlit("(contains:");
    reveal_strlit("(dates:");
    reveal_strlit("(dup)");
    reveal_strlit("(embed)");
    reveal_strlit("(embed:");
    reveal_strlit("(emo)");
    reveal_strlit("(overlap:");
    reveal_strlit("(rec)");
    reveal_strlit("(s:");
    reveal_strlit("(se:");
    reveal_strlit("(settags:");
    reveal_strlit("(su:");
    reveal_strlit("(tag)");
    reveal_strlit("(usersets:");
    let gt = crate::inline_data::groups_text(g);
    let s = query_text(InlineQueryView::SearchTagsForContinuousTagMode(g, SetOperation::Tag));
    assert(s =~= "(cont)"@ + (seq![' '] + gt));
    lemma_kw_miss(s, "(s:"@, 1);
    lemma_kw_miss(s, "(se:"@, 1);
    lemma_kw_miss(s, "(su:"@, 1);
    lemma_kw_miss(s, "(contains:"@, 5);
    lemma_kw_miss(s, "(overlap:"@, 1);
    lemma_kw_miss(s, "(dates:"@, 1);
    lemma_kw_miss(s, "(usersets:"@, 1);
    lemma_kw_miss(s, "(settags:"@, 1);
    lemma_kw_miss(s, "(add:"@, 1);
    lemma_kw_miss(s, "(blacklist)"@, 1);
    lemma_kw_miss(s, "(tag)"@, 1);
    lemma_kw_miss(s, "(alias)"@, 1);
    lemma_kw_miss(s, "(embed)"@, 1);
    lemma_kw_miss(s, "(dup)"@, 1);
    lemma_kw_miss(s, "(emo)"@, 1);
    lemma_kw_miss(s, "(rec)"@, 1);
    assert(s.subrange(0, 6) =~= "(cont)"@);
    lemma_kw(s, 0, "(cont)"@);
    assert(s.skip(6) =~= seq![' '] + gt);
    lemma_groups_at(s, 6, g);
    lemma_ms0_stops(s, s.len() as int);
}

#[verifier::spinoff_prover]
#[verifier::rlimit(50)]
proof fn lemma_rt_cont_untag(g: Groups)
    requires
        groups_wf(g),
    ensures
        parse_query(query_text(InlineQueryView::SearchTagsForContinuousTagMode(g, SetOperation::Untag)))
            == Some(InlineQueryView::SearchTagsForContinuousTagMode(g, SetOperation::Untag)),
{
    reveal_strlit(" ");
    reveal_strlit("(-cont)");
    reveal_strlit("(-cont) ");
    reveal_strlit("(add:");
    reveal_strlit("(alias)");
    reveal_strlit("(blacklist)");
    reveal_strlit("(color:");
    reveal_strlit("(cont)");
    reveal_strlit("(contains:");
    reveal_strlit("(dates:");
    reveal_strlit("(dup)");
    reveal_strlit("(embed)");
    reveal_strlit("(embed:");
    reveal_strlit("(emo)");
    reveal_strlit("(overlap:");
    reveal_strlit("(rec)");
    reveal_strlit("(s:");
    reveal_strlit("(se:");
    reveal_strlit("(settags:");
    reveal_strlit("(su:");
    reveal_strlit("(tag)");
    reveal_strlit("(usersets:");
    let gt = crate::inline_data::groups_text(g);
    let s = query_text(InlineQueryView::SearchTagsForContinuousTagMode(g, SetOperation::Untag));
    assert(s =~= "(-cont)"@ + (seq![' '] + gt));
    lemma_kw_miss(s, "(s:"@, 1);
    lemma_kw_miss(s, "(se:"@, 1);
    lemma_kw_miss(s, "(su:"@, 1);
    lemma_kw_miss(s, "(contains:"@, 1);
    lemma_kw_miss(s, "(overlap:"@, 1);
    lemma_kw_miss(s, "(dates:"@, 1);
    lemma_kw_miss(s, "(usersets:"@, 1);
    lemma_kw_miss(s, "(settags:"@, 1);
    lemma_kw_miss(s, "(add:"@, 1);
    lemma_kw_miss(s, "(blacklist)"@, 1);
    lemma_kw_miss(s, "(tag)"@, 1);
    lemma_kw_miss(s, "(alias)"@, 1);
    lemma_kw_miss(s, "(embed)"@, 1);
    lemma_kw_miss(s, "(dup)"@, 1);
    lemma_kw_miss(s, "(emo)"@, 1);
    lemma_kw_miss(s, "(rec)"@, 1);
    lemma_kw_miss(s, "(cont)"@, 1);
    assert(s.subrange(0, 7) =~= "(-cont)"@);
    lemma_kw(s, 0, "(-cont)"@);
    assert(s.skip(7) =~= seq![' '] + gt);
    lemma_groups_at(s, 7, g);
    lemma_ms0_stops(s, s.len() as int);
}

#[verifier::spinoff_prover]
#[verifier::rlimit(50)]
proof fn lemma_rt_blacklist(tags: Seq<Seq<char>>)
    requires
        tags_wf(tags),
    ensures
        parse_query(query_text(InlineQueryView::SearchTagsForBlacklist(tags))) == Some(InlineQueryView::SearchTagsForBlacklist(tags)),
{
    reveal_strlit(" ");
    reveal_strlit("(-cont)");
    reveal_strlit("(add:");
    reveal_strlit("(alias)");
    reveal_strlit("(blacklist)");
    reveal_strlit("(blacklist) ");
    reveal_strlit("(color:");
    reveal_strlit("(cont)");
    reveal_strlit("(contains:");
    reveal_strlit("(dates:");
    reveal_strlit("(dup)");
    reveal_strlit("(embed)");
    reveal_strlit("(embed:");
    reveal_strlit("(emo)");
    reveal_strlit("(overlap:");
    reveal_strlit("(rec)");
    reveal_strlit("(s:");
    reveal_strlit("(se:");
    reveal_strlit("(settags:");
    reveal_strlit("(su:");
    reveal_strlit("(tag)");
    reveal_strlit("(usersets:");
    let j = join(tags, " "@);
    let s = query_text(InlineQueryView::SearchTagsForBlacklist(tags));
    assert(s =~= "(blacklist)"@ + seq![' '] + j);
    lemma_kw_miss(s, "(s:"@, 1);
    lemma_kw_miss(s, "(se:"@, 1);
    lemma_kw_miss(s, "(su:"@, 1);
    lemma_kw_miss(s, "(contains:"@, 1);
    lemma_kw_miss(s, "(overlap:"@, 1);
    lemma_kw_miss(s, "(dates:"@, 1);
    lemma_kw_miss(s, "(usersets:"@, 1);
    lemma_kw_miss(s, "(settags:"@, 1);
    lemma_kw_miss(s, "(add:"@, 1);
    assert(s.subrange(0, 11) =~= "(blacklist)"@);
    lemma_kw(s, 0, "(blacklist)"@);
    if tags.len() == 0 {
        assert(j =~= Seq::<char>::empty());
        lemma_ms0_one(s, 11);
        assert(span_len(s.skip(12), CharClass::Tag) == 0);
        assert(tags_at(s, 11) == (tags, 12int)) by {
            assert(tags =~= Seq::<Seq<char>>::empty());
            lemma_ms0_stops(s, 12);
        }
        lemma_ms0_stops(s, 12);
    } else {
        assert(s.subrange(12, 12 + j.len() as int) =~= j);
        lemma_tags_at(s, 11, 1, tags);
        lemma_ms0_stops(s, s.len() as int);
    }
}

#[verifier::spinoff_prover]
#[verifier::rlimit(50)]
proof fn lemma_rt_usersets(n: i64)
    requires
        n >= 0,
    ensures
        parse_query(query_text(InlineQueryView::SetsByUserId(n))) == Some(InlineQueryView::SetsByUserId(n)),
{
    reveal_strlit(" ");
    reveal_strlit("(-cont)");
    reveal_strlit("(add:");
    reveal_strlit("(alias)");
    reveal_strlit("(blacklist)");
    reveal_strlit("(color:");
    reveal_strlit("(cont)");
    reveal_strlit("(contains:");
    reveal_strlit("(dates:");
    reveal_strlit("(dup)");
    reveal_strlit("(embed)");
    reveal_strlit("(embed:");
    reveal_strlit("(emo)");
    reveal_strlit("(overlap:");
    reveal_strlit("(rec)");
    reveal_strlit("(s:");
    reveal_strlit("(se:");
    reveal_strlit("(settags:");
    reveal_strlit("(su:");
    reveal_strlit("(tag)");
    reveal_strlit("(usersets:");
    reveal_strlit(")");
    reveal_strlit(") ");
    let d = dec_int(n as int);
    let s = query_text(InlineQueryView::SetsByUserId(n));
    assert(d == dec(n as nat));
    lemma_dec_digits(n as nat);
    assert(valid_word(d, CharClass::Digit));
    assert(s =~= "(usersets:"@ + d + ")"@ + " "@);
    lemma_kw_miss(s, "(s:"@, 1);
    lemma_kw_miss(s, "(se:"@, 1);
    lemma_kw_miss(s, "(su:"@, 1);
    lemma_kw_miss(s, "(contains:"@, 1);
    lemma_kw_miss(s, "(overlap:"@, 1);
    lemma_kw_miss(s, "(dates:"@, 1);
    lemma_paren_word("(usersets:"@, d, CharClass::Digit, " "@);
    lemma_std_parse_dec(n as int, true, i64::MIN as int, i64::MAX as int);
    lemma_ends_blank(s);
}

#[verifier::spinoff_prover]
#[verifier::rlimit(50)]
proof fn lemma_rt_add(id: Seq<char>, title: Option<Seq<char>>)
    requires
        valid_word(id, CharClass::StickerId),
        title matches Some(t) ==> t.len() > 0 && !in_class(t[0], CharClass::UnicodeSpace) && !in_class(t[t.len() - 1], CharClass::UnicodeSpace),
    ensures
        parse_query(query_text(InlineQueryView::AddToUserSet(id, title))) == Some(InlineQueryView::AddToUserSet(id, title)),
{
    reveal_strlit(" ");
    reveal_strlit("(-cont)");
    reveal_strlit("(add:");
    reveal_strlit("(alias)");
    reveal_strlit("(blacklist)");
    reveal_strlit("(color:");
    reveal_strlit("(cont)");
    reveal_strlit("(contains:");
    reveal_strlit("(dates:");
    reveal_strlit("(dup)");
    reveal_strlit("(embed)");
    reveal_strlit("(embed:");
    reveal_strlit("(emo)");
    reveal_strlit("(overlap:");
    reveal_strlit("(rec)");
    reveal_strlit("(s:");
    reveal_strlit("(se:");
    reveal_strlit("(settags:");
    reveal_strlit("(su:");
    reveal_strlit("(tag)");
    reveal_strlit("(usersets:");
    reveal_strlit(")");
    reveal_strlit(") ");
    let t = match title { Some(t) => t, None => Seq::empty() };
    let s = query_text(InlineQueryView::AddToUserSet(id, title));
    assert(s =~= "(add:"@ + id + ")"@ + (seq![' '] + t));
    lemma_kw_miss(s, "(s:"@, 1);
    lemma_kw_miss(s, "(se:"@, 1);
    lemma_kw_miss(s, "(su:"@, 1);
    lemma_kw_miss(s, "(contains:"@, 1);
    lemma_kw_miss(s, "(overlap:"@, 1);
    lemma_kw_miss(s, "(dates:"@, 1);
    lemma_kw_miss(s, "(usersets:"@, 1);
    lemma_kw_miss(s, "(settags:"@, 1);
    lemma_paren_word("(add:"@, id, CharClass::StickerId, seq![' '] + t);
    let i = (5 + id.len() + 1) as int;
    assert(s.skip(i) =~= seq![' '] + t);
    match title {
        Some(tt) => {
            lemma_trim_title(tt);
        },
        None => {
            let b = seq![' '];
            lemma_span_len(b, CharClass::UnicodeSpace, 1);
            lemma_trailing_len(b, CharClass::UnicodeSpace, 1);
            assert(trim(b).len() == 0);
            assert(t =~= Seq::<char>::empty());
        },
    }
    lemma_ms0_stops(s, s.len() as int);
}

#[verifier::spinoff_prover]
#[verifier::rlimit(50)]
proof fn lemma_rt_search(tags: Seq<Seq<char>>, emoji: Seq<Seq<char>>)
    requires
        tags_wf(tags),
        emojis_wf(emoji),
        !keyword_query(search_text(tags, emoji)),
    ensures
        parse_query(query_text(InlineQueryView::SearchStickers(tags, emoji))) == Some(InlineQueryView::SearchStickers(tags, emoji)),
{
    let s = query_text(InlineQueryView::SearchStickers(tags, emoji));
    assert(s == search_text(tags, emoji));
    lemma_search(tags, emoji);
    lemma_ms0_stops(s, s.len() as int);
}

/// One of the grammar's alternatives before the plain search reads a
/// prefix of `s`.
pub open spec fn keyword_query(s: Seq<char>) -> bool {
    ||| q_sticker(s) is Some
    ||| q_set(s) is Some
    ||| q_paren_id(s, "(contains:"@, 0) is Some
    ||| q_paren_id(s, "(overlap:"@, 1) is Some
    ||| q_paren_id(s, "(dates:"@, 2) is Some
    ||| q_user_sets(s) is Some
    ||| q_paren_id(s, "(settags:"@, 3) is Some
    ||| q_add(s) is Some
    ||| q_blacklist(s) is Some
    ||| q_rest(s, "(tag)"@, 0) is Some
    ||| q_rest(s, "(alias)"@, 1) is Some
    ||| q_rest(s, "(embed)"@, 2) is Some
    ||| q_keyword(s, "(dup)"@, InlineQueryView::ListMostDuplicatedStickers) is Some
    ||| q_keyword(s, "(emo)"@, InlineQueryView::ListMostUsedEmojis) is Some
    ||| q_keyword(s, "(rec)"@, InlineQueryView::ListRecommendationModeRecommendations) is Some
    ||| q_continuous(s) is Some
    ||| q_paren_id(s, "(color:"@, 4) is Some
    ||| q_paren_id(s, "(embed:"@, 5) is Some
}

/// A search whose text starts with neither `(` nor a blank is read as a
/// search by no other alternative.
pub proof fn lemma_plain_search_text(tags: Seq<Seq<char>>, emoji: Seq<Seq<char>>)
    requires
        search_text(tags, emoji).len() > 0 ==> search_text(tags, emoji)[0] != '(',
    ensures
        !keyword_query(search_text(tags, emoji)),
{
    reveal_strlit(" ");
    reveal_strlit("(-cont)");
    reveal_strlit("(add:");
    reveal_strlit("(alias)");
    reveal_strlit("(blacklist)");
    reveal_strlit("(color:");
    reveal_strlit("(cont)");
    reveal_strlit("(contains:");
    reveal_strlit("(dates:");
    reveal_strlit("(dup)");
    reveal_strlit("(embed)");
    reveal_strlit("(embed:");
    reveal_strlit("(emo)");
    reveal_strlit("(overlap:");
    reveal_strlit("(rec)");
    reveal_strlit("(s:");
    reveal_strlit("(se:");
    reveal_strlit("(settags:");
    reveal_strlit("(su:");
    reveal_strlit("(tag)");
    reveal_strlit("(usersets:");
    let s = search_text(tags, emoji);
    lemma_kw_miss(s, "(s:"@, 0);
    lemma_kw_miss(s, "(se:"@, 0);
    lemma_kw_miss(s, "(su:"@, 0);
    lemma_kw_miss(s, "(contains:"@, 0);
    lemma_kw_miss(s, "(overlap:"@, 0);
    lemma_kw_miss(s, "(dates:"@, 0);
    lemma_kw_miss(s, "(usersets:"@, 0);
    lemma_kw_miss(s, "(settags:"@, 0);
    lemma_kw_miss(s, "(add:"@, 0);
    lemma_kw_miss(s, "(blacklist)"@, 0);
    lemma_kw_miss(s, "(tag)"@, 0);
    lemma_kw_miss(s, "(alias)"@, 0);
    lemma_kw_miss(s, "(embed)"@, 0);
    lemma_kw_miss(s, "(dup)"@, 0);
    lemma_kw_miss(s, "(emo)"@, 0);
    lemma_kw_miss(s, "(rec)"@, 0);
    lemma_kw_miss(s, "(cont)"@, 0);
    lemma_kw_miss(s, "(-cont)"@, 0);
    lemma_kw_miss(s, "(color:"@, 0);
    lemma_kw_miss(s, "(embed:"@, 0);
}

/// The queries whose text reads back: words are non-empty runs of their
/// character class, groups are not empty, a set title has no blanks at its
/// ends, a user id is not negative, the text of a search is read by no
/// other alternative of the grammar, and each emoji's shown form reads
/// back as the emoji.  The text of a tag creator or of a semantic search
/// keeps the blank after its keyword when read, so these never read back.
pub open spec fn query_wf(q: InlineQueryView) -> bool {
    match q {
        InlineQueryView::SearchTagsForSticker(g, id) => valid_word(id, CharClass::StickerId) && groups_wf(g),
        InlineQueryView::SearchTagsForStickerSet(g, name, _) => valid_word(name, CharClass::SetName) && groups_wf(g),
        InlineQueryView::SearchTagsForContinuousTagMode(g, _) => groups_wf(g),
        InlineQueryView::SearchTagsForBlacklist(tags) => tags_wf(tags),
        InlineQueryView::SearchStickers(tags, emoji) => {
            &&& tags_wf(tags)
            &&& emojis_wf(emoji)
            &&& !keyword_query(search_text(tags, emoji))
        },
        InlineQueryView::ListAllTagsFromSet(id) => valid_word(id, CharClass::StickerId),
        InlineQueryView::AddToUserSet(id, title) => {
            &&& valid_word(id, CharClass::StickerId)
            &&& (title matches Some(t) ==> t.len() > 0 && !in_class(t[0], CharClass::UnicodeSpace)
                && !in_class(t[t.len() - 1], CharClass::UnicodeSpace))
        },
        InlineQueryView::ListAllSetsThatContainSticker(id) => valid_word(id, CharClass::StickerId),
        InlineQueryView::ListOverlappingSets(id) => valid_word(id, CharClass::StickerId),
        InlineQueryView::ListSetStickersByDate(id) => valid_word(id, CharClass::StickerId),
        InlineQueryView::ListSimilarStickers(id, _) => valid_word(id, CharClass::StickerId),
        InlineQueryView::ListMostDuplicatedStickers => true,
        InlineQueryView::ListMostUsedEmojis => true,
        InlineQueryView::ListRecommendationModeRecommendations => true,
        InlineQueryView::SearchByEmbedding(_) => false,
        InlineQueryView::SetsByUserId(n) => n >= 0,
        InlineQueryView::TagCreatorTagId(_, _) => false,
    }
}

/// The text of a query reads back as the query, for every query whose
/// parts are well formed (see `query_wf`).
pub proof fn lemma_query_text_roundtrip(q: InlineQueryView)
    requires
        query_wf(q),
    ensures
        parse_query(query_text(q)) == Some(q),
{
    match q {
        InlineQueryView::SearchTagsForSticker(g, id) => lemma_rt_sticker(g, id),
        InlineQueryView::SearchTagsForStickerSet(g, name, op) => match op {
            SetOperation::Tag => lemma_rt_set_tag(g, name),
            SetOperation::Untag => lemma_rt_set_untag(g, name),
        },
        InlineQueryView::SearchTagsForContinuousTagMode(g, op) => match op {
            SetOperation::Tag => lemma_rt_cont_tag(g),
            SetOperation::Untag => lemma_rt_cont_untag(g),
        },
        InlineQueryView::SearchTagsForBlacklist(tags) => lemma_rt_blacklist(tags),
        InlineQueryView::SearchStickers(tags, emoji) => lemma_rt_search(tags, emoji),
        InlineQueryView::ListAllTagsFromSet(id) => lemma_rt_settags(id),
        InlineQueryView::AddToUserSet(id, title) => lemma_rt_add(id, title),
        InlineQueryView::ListAllSetsThatContainSticker(id) => lemma_rt_contains(id),
        InlineQueryView::ListOverlappingSets(id) => lemma_rt_overlap(id),
        InlineQueryView::ListSetStickersByDate(id) => lemma_rt_dates(id),
        InlineQueryView::ListSimilarStickers(id, aspect) => match aspect {
            SimilarityAspect::Color => lemma_rt_color(id),
            SimilarityAspect::Embedding => lemma_rt_embed_similar(id),
        },
        InlineQueryView::ListMostDuplicatedStickers => lemma_rt_dup(),
        InlineQueryView::ListMostUsedEmojis => lemma_rt_emo(),
        InlineQueryView::ListRecommendationModeRecommendations => lemma_rt_rec(),
        InlineQueryView::SetsByUserId(n) => lemma_rt_usersets(n),
        _ => {},
    }
}

} // verus!
