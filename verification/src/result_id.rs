//! Ids of inline query results: `s:<sticker id>`, `t:<tag>`, `st:<set name>`,
//! `e:<emoji>`, `u:<user id>` or `o:<description>`.  Telegram reports the id
//! of the result that the user chose, and the bot reads it back.
use vstd::prelude::*;
use crate::chars::{has_prefix, kw_at, kw_to, lemma_kw, lemma_span_len, push_str, span_len, string_of, to_chars, word, word_at, in_class, CharClass};
use crate::emoji::{emoji_at, parse_emoji_at, qualified_emoji, strip_variation, Emoji};
use crate::numbers::{dec_int, grammar_signed, parse_i64_at, push_dec_i64};

verus! {

/// The result that an inline answer shows.
#[derive(Debug, PartialEq, Eq, Clone)]
pub enum InlineQueryResultId {
    Sticker(String),
    Tag(String),
    StickerSet(String),
    Emoji(Emoji),
    User(i64),
    Other(String),
}

/// A result id as plain values.
pub enum ResultIdView {
    Sticker(Seq<char>),
    Tag(Seq<char>),
    StickerSet(Seq<char>),
    Emoji(Seq<char>),
    User(i64),
    Other(Seq<char>),
}

impl View for InlineQueryResultId {
    type V = ResultIdView;

    open spec fn view(&self) -> ResultIdView {
        match self {
            InlineQueryResultId::Sticker(s) => ResultIdView::Sticker(s@),
            InlineQueryResultId::Tag(s) => ResultIdView::Tag(s@),
            InlineQueryResultId::StickerSet(s) => ResultIdView::StickerSet(s@),
            InlineQueryResultId::Emoji(e) => ResultIdView::Emoji(e@),
            InlineQueryResultId::User(u) => ResultIdView::User(*u),
            InlineQueryResultId::Other(s) => ResultIdView::Other(s@),
        }
    }
}

/// The text of a result id.
pub open spec fn result_id_text(r: ResultIdView) -> Seq<char> {
    match r {
        ResultIdView::Sticker(id) => "s:"@ + id,
        ResultIdView::Tag(tag) => "t:"@ + tag,
        ResultIdView::StickerSet(set_id) => "st:"@ + set_id,
        ResultIdView::Emoji(emoji) => "e:"@ + emoji,
        ResultIdView::User(user_id) => "u:"@ + dec_int(user_id as int),
        ResultIdView::Other(description) => "o:"@ + description,
    }
}

/// `kw` at the start, then a non-empty run of `class` characters that
/// reaches the end of `s`: the run.
pub open spec fn tagged_word(s: Seq<char>, kw: Seq<char>, class: CharClass) -> Option<Seq<char>> {
    match kw_to(s, 0, kw) {
        Some(i) => match word(s, i, class) {
            Some(e) => if e == s.len() { Some(s.subrange(i, e)) } else { None },
            None => None,
        },
        None => None,
    }
}

/// The emoji after `e:` where it reaches the end of `s`.
pub open spec fn tagged_emoji(s: Seq<char>) -> Option<Seq<char>> {
    match kw_to(s, 0, "e:"@) {
        Some(i) => match emoji_at(s, i) {
            Some((em, e)) => if e == s.len() { Some(em) } else { None },
            None => None,
        },
        None => None,
    }
}

/// The user id after `u:` where it reaches the end of `s`.
pub open spec fn tagged_user(s: Seq<char>) -> Option<i64> {
    match kw_to(s, 0, "u:"@) {
        Some(i) => match grammar_signed(s.skip(i), i64::MIN as int, i64::MAX as int) {
            Some((n, k)) => if i + k == s.len() { Some(n as i64) } else { None },
            None => None,
        },
        None => None,
    }
}

/// The result id that a text stands for: the first of the alternatives
/// that reads the whole text.
pub open spec fn result_id_of(s: Seq<char>) -> Option<ResultIdView> {
    match tagged_word(s, "s:"@, CharClass::StickerId) {
        Some(w) => Some(ResultIdView::Sticker(w)),
        None => match tagged_word(s, "t:"@, CharClass::Tag) {
            Some(w) => Some(ResultIdView::Tag(w)),
            None => match tagged_word(s, "st:"@, CharClass::SetName) {
                Some(w) => Some(ResultIdView::StickerSet(w)),
                None => match tagged_emoji(s) {
                    Some(e) => Some(ResultIdView::Emoji(e)),
                    None => match tagged_word(s, "o:"@, CharClass::Alphanumeric) {
                        Some(w) => Some(ResultIdView::Other(w)),
                        None => match tagged_user(s) {
                            Some(u) => Some(ResultIdView::User(u)),
                            None => None,
                        },
                    },
                },
            },
        },
    }
}

fn tagged_word_exec(v: &Vec<char>, kw: &str, class: CharClass) -> (r: Option<String>)
    ensures
        r matches Some(w) ==> tagged_word(v@, kw@, class) == Some(w@),
        r is None ==> tagged_word(v@, kw@, class) is None,
{
    match kw_at(v, 0, kw) {
        Some(i) => match word_at(v, i, class) {
            Some(e) => if e == v.len() { Some(string_of(v, i, e)) } else { None },
            None => None,
        },
        None => None,
    }
}

fn tagged_emoji_exec(v: &Vec<char>) -> (r: Option<Emoji>)
    ensures
        r matches Some(em) ==> tagged_emoji(v@) == Some(em@),
        r is None ==> tagged_emoji(v@) is None,
{
    match kw_at(v, 0, "e:") {
        Some(i) => match parse_emoji_at(v, i) {
            Some((em, e)) => if e == v.len() { Some(em) } else { None },
            None => None,
        },
        None => None,
    }
}

fn tagged_user_exec(v: &Vec<char>) -> (r: Option<i64>)
    ensures
        r matches Some(u) ==> tagged_user(v@) == Some(u),
        r is None ==> tagged_user(v@) is None,
{
    match kw_at(v, 0, "u:") {
        Some(i) => match parse_i64_at(v, i) {
            Some((n, e)) => if e == v.len() { Some(n) } else { None },
            None => None,
        },
        None => None,
    }
}

/// A result id whose text reads back: the words are non-empty runs of their
/// character class, and an emoji is one the emoji table knows, held
/// without variation selectors.
pub open spec fn result_id_wf(r: ResultIdView) -> bool {
    match r {
        ResultIdView::Sticker(w) => w.len() > 0 && forall|i: int| 0 <= i < w.len() ==> in_class(#[trigger] w[i], CharClass::StickerId),
        ResultIdView::Tag(w) => w.len() > 0 && forall|i: int| 0 <= i < w.len() ==> in_class(#[trigger] w[i], CharClass::Tag),
        ResultIdView::StickerSet(w) => w.len() > 0 && forall|i: int| 0 <= i < w.len() ==> in_class(#[trigger] w[i], CharClass::SetName),
        ResultIdView::Emoji(e) => {
            &&& e.len() > 0
            &&& forall|i: int| 0 <= i < e.len() ==> in_class(#[trigger] e[i], CharClass::EmojiText)
            &&& qualified_emoji(e) is Some
            &&& strip_variation(e) == e
        },
        ResultIdView::User(_) => true,
        ResultIdView::Other(w) => w.len() > 0 && forall|i: int| 0 <= i < w.len() ==> in_class(#[trigger] w[i], CharClass::Alphanumeric),
    }
}

proof fn lemma_kw_absent(s: Seq<char>, kw: Seq<char>, j: int)
    requires
        0 <= j < kw.len(),
        j < s.len(),
        s[j] != kw[j],
    ensures
        kw_to(s, 0, kw) is None,
        tagged_word(s, kw, CharClass::StickerId) is None,
        tagged_word(s, kw, CharClass::Tag) is None,
        tagged_word(s, kw, CharClass::SetName) is None,
        tagged_word(s, kw, CharClass::Alphanumeric) is None,
{
    assert(s.skip(0)[j] == s[j]);
}

proof fn lemma_tagged_word_of(kw: Seq<char>, w: Seq<char>, class: CharClass)
    requires
        w.len() > 0,
        forall|i: int| 0 <= i < w.len() ==> in_class(#[trigger] w[i], class),
    ensures
        tagged_word(kw + w, kw, class) == Some(w),
{
    let s = kw + w;
    assert(s.subrange(0, kw.len() as int) =~= kw);
    lemma_kw(s, 0, kw);
    assert forall|j: int| kw.len() <= j < kw.len() + w.len() implies in_class(#[trigger] s[j], class) by {
        assert(s[j] == w[j - kw.len()]);
    }
    crate::chars::lemma_word(s, kw.len() as int, w.len() as int, class);
    assert(s.subrange(kw.len() as int, s.len() as int) =~= w);
}

/// The text of a well-formed result id reads back as that id.
pub proof fn lemma_result_id_roundtrip(r: ResultIdView)
    requires
        result_id_wf(r),
    ensures
        result_id_of(result_id_text(r)) == Some(r),
{
    reveal_strlit("s:");
    reveal_strlit("t:");
    reveal_strlit("st:");
    reveal_strlit("e:");
    reveal_strlit("o:");
    reveal_strlit("u:");
    let s = result_id_text(r);
    match r {
        ResultIdView::Sticker(w) => {
            lemma_tagged_word_of("s:"@, w, CharClass::StickerId);
        },
        ResultIdView::Tag(w) => {
            lemma_kw_absent(s, "s:"@, 0);
            lemma_tagged_word_of("t:"@, w, CharClass::Tag);
        },
        ResultIdView::StickerSet(w) => {
            lemma_kw_absent(s, "s:"@, 1);
            lemma_kw_absent(s, "t:"@, 0);
            lemma_tagged_word_of("st:"@, w, CharClass::SetName);
        },
        ResultIdView::Emoji(e) => {
            lemma_kw_absent(s, "s:"@, 0);
            lemma_kw_absent(s, "t:"@, 0);
            lemma_kw_absent(s, "st:"@, 0);
            assert(s.subrange(0, 2) =~= "e:"@);
            lemma_kw(s, 0, "e:"@);
            assert forall|j: int| 2 <= j < s.len() implies in_class(#[trigger] s[j], CharClass::EmojiText) by {
                assert(s[j] == e[j - 2]);
            }
            crate::chars::lemma_word(s, 2, e.len() as int, CharClass::EmojiText);
            assert(s.subrange(2, s.len() as int) =~= e);
        },
        ResultIdView::Other(w) => {
            lemma_kw_absent(s, "s:"@, 0);
            lemma_kw_absent(s, "t:"@, 0);
            lemma_kw_absent(s, "st:"@, 0);
            lemma_kw_absent(s, "e:"@, 0);
            lemma_tagged_word_of("o:"@, w, CharClass::Alphanumeric);
        },
        ResultIdView::User(u) => {
            lemma_kw_absent(s, "s:"@, 0);
            lemma_kw_absent(s, "t:"@, 0);
            lemma_kw_absent(s, "st:"@, 0);
            lemma_kw_absent(s, "e:"@, 0);
            lemma_kw_absent(s, "o:"@, 0);
            assert(s.subrange(0, 2) =~= "u:"@);
            lemma_kw(s, 0, "u:"@);
            assert(s.skip(2) =~= dec_int(u as int));
            crate::numbers::lemma_grammar_signed_dec(u as int, i64::MIN as int, i64::MAX as int);
        },
    }
}

/// Why a result id was refused.
#[derive(Debug, Clone, PartialEq, Eq)]
pub struct ResultIdError {
    /// The text that was refused.
    pub input: String,
}

impl InlineQueryResultId {
    /// Reads a result id.
    pub fn parse(input: &str) -> (r: Result<InlineQueryResultId, ResultIdError>)
        ensures
            r matches Ok(id) ==> result_id_of(input@) == Some(id@),
            r matches Err(e) ==> result_id_of(input@) is None && e.input@ == input@,
    {
        let v = to_chars(input);
        if let Some(w) = tagged_word_exec(&v, "s:", CharClass::StickerId) {
            return Ok(InlineQueryResultId::Sticker(w));
        }
        if let Some(w) = tagged_word_exec(&v, "t:", CharClass::Tag) {
            return Ok(InlineQueryResultId::Tag(w));
        }
        if let Some(w) = tagged_word_exec(&v, "st:", CharClass::SetName) {
            return Ok(InlineQueryResultId::StickerSet(w));
        }
        if let Some(e) = tagged_emoji_exec(&v) {
            return Ok(InlineQueryResultId::Emoji(e));
        }
        if let Some(w) = tagged_word_exec(&v, "o:", CharClass::Alphanumeric) {
            return Ok(InlineQueryResultId::Other(w));
        }
        if let Some(u) = tagged_user_exec(&v) {
            return Ok(InlineQueryResultId::User(u));
        }
        Err(ResultIdError { input: input.to_owned() })
    }

    /// The text of the id.
    pub fn to_string(&self) -> (r: String)
        ensures
            r@ == result_id_text(self@),
    {
        let mut r = String::new();
        match self {
            InlineQueryResultId::Sticker(id) => {
                push_str(&mut r, "s:");
                push_str(&mut r, id.as_str());
            },
            InlineQueryResultId::Tag(tag) => {
                push_str(&mut r, "t:");
                push_str(&mut r, tag.as_str());
            },
            InlineQueryResultId::StickerSet(set_id) => {
                push_str(&mut r, "st:");
                push_str(&mut r, set_id.as_str());
            },
            InlineQueryResultId::Emoji(emoji) => {
                push_str(&mut r, "e:");
                let text = emoji.to_string_without_variant();
                push_str(&mut r, text.as_str());
            },
            InlineQueryResultId::User(user_id) => {
                push_str(&mut r, "u:");
                push_dec_i64(&mut r, *user_id);
            },
            InlineQueryResultId::Other(description) => {
                push_str(&mut r, "o:");
                push_str(&mut r, description.as_str());
            },
        }
        proof {
            assert(Seq::<char>::empty() + result_id_text(self@) =~= result_id_text(self@));
        }
        r
    }
}

impl TryFrom<String> for InlineQueryResultId {
    type Error = ResultIdError;

    fn try_from(input: String) -> (r: Result<InlineQueryResultId, ResultIdError>)
        ensures
            r matches Ok(id) ==> result_id_of(input@) == Some(id@),
            r is Err ==> result_id_of(input@) is None,
    {
        InlineQueryResultId::parse(input.as_str())
    }
}

impl vstd::std_specs::convert::TryFromSpecImpl<String> for InlineQueryResultId {
    open spec fn obeys_try_from_spec() -> bool {
        false
    }

    open spec fn try_from_spec(v: String) -> Result<InlineQueryResultId, ResultIdError> {
        arbitrary()
    }
}

} // verus!
