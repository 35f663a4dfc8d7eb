//! The text of an inline query: what the user types after the bot's name,
//! or what a button pre-fills there, such as `(s:<sticker id>) male, female`.
use vstd::prelude::*;
use crate::chars::{
    choice2, choice2_at, is_multispace, join, kw_at, kw_to, push_join, push_str, span, span_len,
    string_of, to_chars, trim, trim_bounds, word, word_at, CharClass, lemma_span_len_facts,
};
use crate::emoji::{emoji_at, parse_emoji_at, with_variant, Emoji};
use crate::numbers::{dec_int, push_dec_i64, std_parse_int, std_parse_range};
use crate::errors::{byte_len, byte_len_of, UserError};

verus! {

#[derive(Debug, PartialEq, Eq, Clone, Copy)]
pub enum SetOperation {
    Tag,
    Untag,
}

#[derive(Debug, PartialEq, Eq, Clone, Copy)]
pub enum TagKind {
    Main,
    Alias,
}

#[derive(Clone, Debug, PartialEq, Eq, Copy)]
pub enum SimilarityAspect {
    Color,
    Embedding,
}

/// What an inline query asks for.
#[derive(Debug, PartialEq, Eq, Clone)]
pub enum InlineQueryData {
    SearchTagsForSticker { tags: Vec<Vec<String>>, unique_id: String },
    SearchTagsForStickerSet { tags: Vec<Vec<String>>, set_name: String, operation: SetOperation },
    SearchTagsForContinuousTagMode { tags: Vec<Vec<String>>, operation: SetOperation },
    SearchTagsForBlacklist { tags: Vec<String> },
    SearchStickers { tags: Vec<String>, emoji: Vec<Emoji> },
    ListAllTagsFromSet { sticker_id: String },
    AddToUserSet { sticker_id: String, set_title: Option<String> },
    ListAllSetsThatContainSticker { sticker_id: String },
    ListOverlappingSets { sticker_id: String },
    ListSetStickersByDate { sticker_id: String },
    ListSimilarStickers { unique_id: String, aspect: SimilarityAspect },
    ListMostDuplicatedStickers,
    ListMostUsedEmojis,
    ListRecommendationModeRecommendations,
    SearchByEmbedding { query: String },
    SetsByUserId { user_id: i64 },
    TagCreatorTagId { tag_id: String, kind: TagKind },
}

pub type Groups = Seq<Seq<Seq<char>>>;

/// `InlineQueryData` with strings as character sequences.
pub enum InlineQueryView {
    SearchTagsForSticker(Groups, Seq<char>),
    SearchTagsForStickerSet(Groups, Seq<char>, SetOperation),
    SearchTagsForContinuousTagMode(Groups, SetOperation),
    SearchTagsForBlacklist(Seq<Seq<char>>),
    SearchStickers(Seq<Seq<char>>, Seq<Seq<char>>),
    ListAllTagsFromSet(Seq<char>),
    AddToUserSet(Seq<char>, Option<Seq<char>>),
    ListAllSetsThatContainSticker(Seq<char>),
    ListOverlappingSets(Seq<char>),
    ListSetStickersByDate(Seq<char>),
    ListSimilarStickers(Seq<char>, SimilarityAspect),
    ListMostDuplicatedStickers,
    ListMostUsedEmojis,
    ListRecommendationModeRecommendations,
    SearchByEmbedding(Seq<char>),
    SetsByUserId(i64),
    TagCreatorTagId(Seq<char>, TagKind),
}

pub open spec fn opt_str_view(o: Option<String>) -> Option<Seq<char>> {
    match o {
        Some(s) => Some(s@),
        None => None,
    }
}

impl View for InlineQueryData {
    type V = InlineQueryView;

    open spec fn view(&self) -> InlineQueryView {
        match self {
            InlineQueryData::SearchTagsForSticker { tags, unique_id } => InlineQueryView::SearchTagsForSticker(tags.deep_view(), unique_id@),
            InlineQueryData::SearchTagsForStickerSet { tags, set_name, operation } => InlineQueryView::SearchTagsForStickerSet(tags.deep_view(), set_name@, *operation),
            InlineQueryData::SearchTagsForContinuousTagMode { tags, operation } => InlineQueryView::SearchTagsForContinuousTagMode(tags.deep_view(), *operation),
            InlineQueryData::SearchTagsForBlacklist { tags } => InlineQueryView::SearchTagsForBlacklist(tags.deep_view()),
            InlineQueryData::SearchStickers { tags, emoji } => InlineQueryView::SearchStickers(tags.deep_view(), emoji.deep_view()),
            InlineQueryData::ListAllTagsFromSet { sticker_id } => InlineQueryView::ListAllTagsFromSet(sticker_id@),
            InlineQueryData::AddToUserSet { sticker_id, set_title } => InlineQueryView::AddToUserSet(sticker_id@, opt_str_view(*set_title)),
            InlineQueryData::ListAllSetsThatContainSticker { sticker_id } => InlineQueryView::ListAllSetsThatContainSticker(sticker_id@),
            InlineQueryData::ListOverlappingSets { sticker_id } => InlineQueryView::ListOverlappingSets(sticker_id@),
            InlineQueryData::ListSetStickersByDate { sticker_id } => InlineQueryView::ListSetStickersByDate(sticker_id@),
            InlineQueryData::ListSimilarStickers { unique_id, aspect } => InlineQueryView::ListSimilarStickers(unique_id@, *aspect),
            InlineQueryData::ListMostDuplicatedStickers => InlineQueryView::ListMostDuplicatedStickers,
            InlineQueryData::ListMostUsedEmojis => InlineQueryView::ListMostUsedEmojis,
            InlineQueryData::ListRecommendationModeRecommendations => InlineQueryView::ListRecommendationModeRecommendations,
            InlineQueryData::SearchByEmbedding { query } => InlineQueryView::SearchByEmbedding(query@),
            InlineQueryData::SetsByUserId { user_id } => InlineQueryView::SetsByUserId(*user_id),
            InlineQueryData::TagCreatorTagId { tag_id, kind } => InlineQueryView::TagCreatorTagId(tag_id@, *kind),
        }
    }
}

// ---------------------------------------------------------------------------
// Text form
// ---------------------------------------------------------------------------

/// Groups of tags: the tags of a group joined by blanks, groups by `, `.
pub open spec fn groups_text(g: Groups) -> Seq<char>
    decreases g.len(),
{
    if g.len() == 0 {
        Seq::empty()
    } else if g.len() == 1 {
        join(g[0], " "@)
    } else {
        groups_text(g.drop_last()) + ", "@ + join(g.last(), " "@)
    }
}

/// Emoji shown in their qualified form, joined by blanks.
pub open spec fn emojis_text(es: Seq<Seq<char>>) -> Seq<char>
    decreases es.len(),
{
    if es.len() == 0 {
        Seq::empty()
    } else if es.len() == 1 {
        with_variant(es[0])
    } else {
        emojis_text(es.drop_last()) + " "@ + with_variant(es.last())
    }
}

/// The text of a query.
pub open spec fn query_text(q: InlineQueryView) -> Seq<char> {
    match q {
        InlineQueryView::SearchTagsForSticker(tags, id) => "(s:"@ + id + ") "@ + groups_text(tags),
        InlineQueryView::ListAllSetsThatContainSticker(id) => "(contains:"@ + id + ") "@,
        InlineQueryView::ListOverlappingSets(id) => "(overlap:"@ + id + ") "@,
        InlineQueryView::ListSetStickersByDate(id) => "(dates:"@ + id + ") "@,
        InlineQueryView::ListAllTagsFromSet(id) => "(settags:"@ + id + ") "@,
        InlineQueryView::AddToUserSet(id, title) => "(add:"@ + id + ") "@
            + (match title { Some(t) => t, None => Seq::empty() }),
        InlineQueryView::SearchStickers(tags, emoji) => {
            let e = emojis_text(emoji);
            e + (if e.len() > 0 { " "@ } else { Seq::empty() }) + join(tags, " "@)
        },
        InlineQueryView::SearchTagsForBlacklist(tags) => "(blacklist) "@ + join(tags, " "@),
        InlineQueryView::SearchTagsForStickerSet(tags, name, op) => match op {
            SetOperation::Tag => "(se:"@ + name + ") "@ + groups_text(tags),
            SetOperation::Untag => "(su:"@ + name + ") "@ + groups_text(tags),
        },
        InlineQueryView::TagCreatorTagId(id, kind) => match kind {
            TagKind::Main => "(tag) "@ + id,
            TagKind::Alias => "(alias) "@ + id,
        },
        InlineQueryView::SearchTagsForContinuousTagMode(tags, op) => match op {
            SetOperation::Tag => "(cont) "@ + groups_text(tags),
            SetOperation::Untag => "(-cont) "@ + groups_text(tags),
        },
        InlineQueryView::ListSimilarStickers(id, aspect) => match aspect {
            SimilarityAspect::Color => "(color:"@ + id + ") "@,
            SimilarityAspect::Embedding => "(embed:"@ + id + ") "@,
        },
        InlineQueryView::SearchByEmbedding(query) => "(embed) "@ + query,
        InlineQueryView::ListMostDuplicatedStickers => "(dup) "@,
        InlineQueryView::ListMostUsedEmojis => "(emo) "@,
        InlineQueryView::ListRecommendationModeRecommendations => "(rec) "@,
        InlineQueryView::SetsByUserId(user_id) => "(usersets:"@ + dec_int(user_id as int) + ") "@,
    }
}

// ---------------------------------------------------------------------------
// Grammar
// ---------------------------------------------------------------------------

/// Position after the blanks (space, tab, CR, LF) at `i`.
pub open spec fn ms0(s: Seq<char>, i: int) -> int {
    i + span_len(s.skip(i), CharClass::MultiSpace)
}

pub proof fn lemma_ms0(s: Seq<char>, i: int)
    requires
        0 <= i <= s.len(),
    ensures
        i <= ms0(s, i) <= s.len(),
{
    lemma_span_len_facts(s.skip(i), CharClass::MultiSpace);
}

pub proof fn lemma_word_bounds(s: Seq<char>, i: int, class: CharClass)
    ensures
        word(s, i, class) matches Some(e) ==> i < e <= s.len(),
{
    if 0 <= i <= s.len() {
        lemma_span_len_facts(s.skip(i), class);
    }
}

/// Further blank-separated tags after position `i`, appended to `acc`.
pub open spec fn more_tags(s: Seq<char>, i: int, acc: Seq<Seq<char>>) -> (Seq<Seq<char>>, int)
    decreases s.len() - i,
{
    if 0 <= i <= s.len() {
        let j = ms0(s, i);
        proof { lemma_ms0(s, i); }
        if j > i {
            match word(s, j, CharClass::Tag) {
                Some(e) => {
                    proof { lemma_word_bounds(s, j, CharClass::Tag); }
                    more_tags(s, e, acc.push(s.subrange(j, e)))
                },
                None => (acc, i),
            }
        } else {
            (acc, i)
        }
    } else {
        (acc, i)
    }
}

/// Blank-separated tags, with blanks around them.
pub open spec fn tags_at(s: Seq<char>, i: int) -> (Seq<Seq<char>>, int) {
    let a = ms0(s, i);
    let (t, b) = match word(s, a, CharClass::Tag) {
        Some(e) => more_tags(s, e, seq![s.subrange(a, e)]),
        None => (Seq::empty(), a),
    };
    (t, ms0(s, b))
}

/// Further comma-separated groups after position `i`; empty groups are dropped.
pub open spec fn more_groups(s: Seq<char>, i: int, acc: Groups) -> (Groups, int)
    decreases s.len() - i,
{
    if 0 <= i < s.len() && s[i] == ',' {
        let (t, e) = tags_at(s, i + 1);
        if i < e <= s.len() {
            more_groups(s, e, if t.len() > 0 { acc.push(t) } else { acc })
        } else {
            (acc, i)
        }
    } else {
        (acc, i)
    }
}

/// Comma-separated groups of blank-separated tags; empty groups are dropped.
pub open spec fn groups_at(s: Seq<char>, i: int) -> (Groups, int) {
    let a = ms0(s, i);
    let (t0, b) = tags_at(s, a);
    let (g, c) = more_groups(s, b, if t0.len() > 0 { seq![t0] } else { Seq::empty() });
    (g, ms0(s, c))
}

/// One search term at `i`: a tag, else an emoji.
pub open spec fn term_at(s: Seq<char>, i: int) -> Option<(bool, Seq<char>, int)> {
    match word(s, i, CharClass::Tag) {
        Some(e) => Some((true, s.subrange(i, e), e)),
        None => match emoji_at(s, i) {
            Some((em, e)) => Some((false, em, e)),
            None => None,
        },
    }
}

/// Further blank-separated search terms after `i`, sorted into tags and emoji.
pub open spec fn more_terms(s: Seq<char>, i: int, tags: Seq<Seq<char>>, emoji: Seq<Seq<char>>) -> (Seq<Seq<char>>, Seq<Seq<char>>, int)
    decreases s.len() - i,
{
    if 0 <= i <= s.len() {
        let j = ms0(s, i);
        if j > i {
            match term_at(s, j) {
                Some((is_tag, t, e)) => if j < e <= s.len() {
                    if is_tag {
                        more_terms(s, e, tags.push(t), emoji)
                    } else {
                        more_terms(s, e, tags, emoji.push(t))
                    }
                } else {
                    (tags, emoji, i)
                },
                None => (tags, emoji, i),
            }
        } else {
            (tags, emoji, i)
        }
    } else {
        (tags, emoji, i)
    }
}

/// Blank-separated search terms with blanks around them.
pub open spec fn terms_at(s: Seq<char>, i: int) -> (Seq<Seq<char>>, Seq<Seq<char>>, int) {
    let a = ms0(s, i);
    let (tags, emoji, b) = match term_at(s, a) {
        Some((is_tag, t, e)) => if is_tag {
            more_terms(s, e, seq![t], Seq::empty())
        } else {
            more_terms(s, e, Seq::empty(), seq![t])
        },
        None => (Seq::empty(), Seq::empty(), a),
    };
    (tags, emoji, ms0(s, b))
}

/// `kw`, a run of `class`, then `)`: the run and the end.
pub open spec fn paren_word(s: Seq<char>, kw: Seq<char>, class: CharClass) -> Option<(Seq<char>, int)> {
    match kw_to(s, 0, kw) {
        Some(i) => match word(s, i, class) {
            Some(e) => match kw_to(s, e, ")"@) {
                Some(f) => Some((s.subrange(i, e), f)),
                None => None,
            },
            None => None,
        },
        None => None,
    }
}

pub type QParsed = Option<(InlineQueryView, int)>;

pub open spec fn q_sticker(s: Seq<char>) -> QParsed {
    match paren_word(s, "(s:"@, CharClass::StickerId) {
        Some((id, i)) => {
            let (g, e) = groups_at(s, i);
            Some((InlineQueryView::SearchTagsForSticker(g, id), e))
        },
        None => None,
    }
}

pub open spec fn q_set(s: Seq<char>) -> QParsed {
    match choice2(s, 0, "(se:"@, "(su:"@) {
        Some((tag, i)) => match word(s, i, CharClass::SetName) {
            Some(e) => match kw_to(s, e, ")"@) {
                Some(f) => {
                    let (g, end) = groups_at(s, f);
                    Some((InlineQueryView::SearchTagsForStickerSet(g, s.subrange(i, e),
                        if tag { SetOperation::Tag } else { SetOperation::Untag }), end))
                },
                None => None,
            },
            None => None,
        },
        None => None,
    }
}

/// `kw`, a sticker id and `)`, made into a query by `which`.
pub open spec fn q_paren_id(s: Seq<char>, kw: Seq<char>, which: int) -> QParsed {
    match paren_word(s, kw, CharClass::StickerId) {
        Some((id, e)) => Some((
            if which == 0 { InlineQueryView::ListAllSetsThatContainSticker(id) }
            else if which == 1 { InlineQueryView::ListOverlappingSets(id) }
            else if which == 2 { InlineQueryView::ListSetStickersByDate(id) }
            else if which == 3 { InlineQueryView::ListAllTagsFromSet(id) }
            else if which == 4 { InlineQueryView::ListSimilarStickers(id, SimilarityAspect::Color) }
            else { InlineQueryView::ListSimilarStickers(id, SimilarityAspect::Embedding) },
            e)),
        None => None,
    }
}

pub open spec fn q_user_sets(s: Seq<char>) -> QParsed {
    match paren_word(s, "(usersets:"@, CharClass::Digit) {
        Some((digits, e)) => match std_parse_int(digits, true, i64::MIN as int, i64::MAX as int) {
            Some(n) => Some((InlineQueryView::SetsByUserId(n as i64), e)),
            None => None,
        },
        None => None,
    }
}

pub open spec fn q_add(s: Seq<char>) -> QParsed {
    match paren_word(s, "(add:"@, CharClass::StickerId) {
        Some((id, i)) => {
            let title = trim(s.skip(i));
            Some((InlineQueryView::AddToUserSet(id, if title.len() == 0 { None } else { Some(title) }), s.len() as int))
        },
        None => None,
    }
}

pub open spec fn q_blacklist(s: Seq<char>) -> QParsed {
    match kw_to(s, 0, "(blacklist)"@) {
        Some(i) => {
            let (t, e) = tags_at(s, i);
            Some((InlineQueryView::SearchTagsForBlacklist(t), e))
        },
        None => None,
    }
}

/// `kw` followed by the rest of the text, made into a query by `which`.
pub open spec fn q_rest(s: Seq<char>, kw: Seq<char>, which: int) -> QParsed {
    match kw_to(s, 0, kw) {
        Some(i) => Some((
            if which == 0 { InlineQueryView::TagCreatorTagId(s.skip(i), TagKind::Main) }
            else if which == 1 { InlineQueryView::TagCreatorTagId(s.skip(i), TagKind::Alias) }
            else { InlineQueryView::SearchByEmbedding(s.skip(i)) },
            s.len() as int)),
        None => None,
    }
}

pub open spec fn q_keyword(s: Seq<char>, kw: Seq<char>, q: InlineQueryView) -> QParsed {
    match kw_to(s, 0, kw) {
        Some(e) => Some((q, e)),
        None => None,
    }
}

pub open spec fn q_continuous(s: Seq<char>) -> QParsed {
    match choice2(s, 0, "(cont)"@, "(-cont)"@) {
        Some((tag, i)) => {
            let (g, e) = groups_at(s, i);
            Some((InlineQueryView::SearchTagsForContinuousTagMode(g,
                if tag { SetOperation::Tag } else { SetOperation::Untag }), e))
        },
        None => None,
    }
}

pub open spec fn q_search(s: Seq<char>) -> QParsed {
    let (tags, emoji, e) = terms_at(s, 0);
    Some((InlineQueryView::SearchStickers(tags, emoji), e))
}

/// The first alternative that reads a prefix of `s`, in the grammar's order.
pub open spec fn q_any(s: Seq<char>) -> QParsed {
    let a0 = q_sticker(s);
    let a1 = q_set(s);
    let a2 = q_paren_id(s, "(contains:"@, 0);
    let a3 = q_paren_id(s, "(overlap:"@, 1);
    let a4 = q_paren_id(s, "(dates:"@, 2);
    let a5 = q_user_sets(s);
    let a6 = q_paren_id(s, "(settags:"@, 3);
    let a7 = q_add(s);
    let a8 = q_blacklist(s);
    let a9 = q_rest(s, "(tag)"@, 0);
    let a10 = q_rest(s, "(alias)"@, 1);
    let a11 = q_rest(s, "(embed)"@, 2);
    let a12 = q_keyword(s, "(dup)"@, InlineQueryView::ListMostDuplicatedStickers);
    let a13 = q_keyword(s, "(emo)"@, InlineQueryView::ListMostUsedEmojis);
    let a14 = q_keyword(s, "(rec)"@, InlineQueryView::ListRecommendationModeRecommendations);
    let a15 = q_continuous(s);
    let a16 = q_paren_id(s, "(color:"@, 4);
    let a17 = q_paren_id(s, "(embed:"@, 5);
    let a18 = q_search(s);
    if a0 is Some { a0 }
    else if a1 is Some { a1 }
    else if a2 is Some { a2 }
    else if a3 is Some { a3 }
    else if a4 is Some { a4 }
    else if a5 is Some { a5 }
    else if a6 is Some { a6 }
    else if a7 is Some { a7 }
    else if a8 is Some { a8 }
    else if a9 is Some { a9 }
    else if a10 is Some { a10 }
    else if a11 is Some { a11 }
    else if a12 is Some { a12 }
    else if a13 is Some { a13 }
    else if a14 is Some { a14 }
    else if a15 is Some { a15 }
    else if a16 is Some { a16 }
    else if a17 is Some { a17 }
    else { a18 }
}

/// Where reading `s` stops: the end of the first alternative that reads a
/// prefix, and the blanks after it.  The text is a query when that is its end.
pub open spec fn query_stop(s: Seq<char>) -> int {
    match q_any(s) {
        Some((_, e)) => ms0(s, e),
        None => 0,
    }
}

/// The query that the text `s` denotes.
pub open spec fn parse_query(s: Seq<char>) -> Option<InlineQueryView> {
    match q_any(s) {
        Some((q, e)) => if ms0(s, e) == s.len() { Some(q) } else { None },
        None => None,
    }
}

// ---------------------------------------------------------------------------
// Reading
// ---------------------------------------------------------------------------

fn ms0_at(v: &Vec<char>, i: usize) -> (r: usize)
    requires
        i <= v@.len(),
    ensures
        r == ms0(v@, i as int),
        i <= r <= v@.len(),
{
    span(v, i, CharClass::MultiSpace)
}

proof fn lemma_push_deep(acc: Vec<String>, old_acc: Vec<String>, t: String)
    requires
        acc@ == old_acc@.push(t),
    ensures
        acc.deep_view() == old_acc.deep_view().push(t@),
{
    assert(acc.deep_view() =~= old_acc.deep_view().push(t@));
}

fn tags_exec(v: &Vec<char>, i: usize) -> (r: (Vec<String>, usize))
    requires
        i <= v@.len(),
    ensures
        (r.0.deep_view(), r.1 as int) == tags_at(v@, i as int),
        r.1 <= v@.len(),
{
    let a = ms0_at(v, i);
    let mut acc: Vec<String> = Vec::new();
    let mut pos: usize;
    match word_at(v, a, CharClass::Tag) {
        Some(e) => {
            let w = string_of(v, a, e);
            let ghost first = w@;
            acc.push(w);
            proof {
                assert(acc.deep_view() =~= seq![first]);
            }
            pos = e;
            let ghost target = more_tags(v@, e as int, seq![v@.subrange(a as int, e as int)]);
            loop
                invariant
                    pos <= v@.len(),
                    more_tags(v@, pos as int, acc.deep_view()) == target,
                ensures
                    (acc.deep_view(), pos as int) == target,
                    pos <= v@.len(),
                decreases v@.len() - pos,
            {
                let j = ms0_at(v, pos);
                if j > pos {
                    match word_at(v, j, CharClass::Tag) {
                        Some(e2) => {
                            let ghost before = acc;
                            let w2 = string_of(v, j, e2);
                            acc.push(w2);
                            proof { lemma_push_deep(acc, before, w2); }
                            pos = e2;
                        },
                        None => break,
                    }
                } else {
                    break;
                }
            }
        },
        None => {
            pos = a;
            assert(acc.deep_view() =~= Seq::<Seq<char>>::empty());
        },
    }
    let end = ms0_at(v, pos);
    (acc, end)
}

fn groups_exec(v: &Vec<char>, i: usize) -> (r: (Vec<Vec<String>>, usize))
    requires
        i <= v@.len(),
    ensures
        (r.0.deep_view(), r.1 as int) == groups_at(v@, i as int),
        r.1 <= v@.len(),
{
    let a = ms0_at(v, i);
    let (t0, b) = tags_exec(v, a);
    let mut acc: Vec<Vec<String>> = Vec::new();
    if t0.len() > 0 {
        let ghost g0 = t0.deep_view();
        acc.push(t0);
        assert(acc.deep_view() =~= seq![g0]);
    } else {
        assert(acc.deep_view() =~= Seq::<Seq<Seq<char>>>::empty());
    }
    let mut pos = b;
    let ghost target = more_groups(v@, b as int, acc.deep_view());
    loop
        invariant
            pos <= v@.len(),
            more_groups(v@, pos as int, acc.deep_view()) == target,
        ensures
            (acc.deep_view(), pos as int) == target,
            pos <= v@.len(),
        decreases v@.len() - pos,
    {
        if pos < v.len() && v[pos] == ',' {
            let (t, e) = tags_exec(v, pos + 1);
            if pos < e {
                if t.len() > 0 {
                    let ghost before = acc.deep_view();
                    let ghost tv = t.deep_view();
                    acc.push(t);
                    assert(acc.deep_view() =~= before.push(tv));
                }
                pos = e;
            } else {
                break;
            }
        } else {
            break;
        }
    }
    let end = ms0_at(v, pos);
    (acc, end)
}

fn term_exec(v: &Vec<char>, i: usize) -> (r: Option<(bool, Option<String>, Option<Emoji>, usize)>)
    requires
        i <= v@.len(),
    ensures
        match term_at(v@, i as int) {
            Some((is_tag, t, e)) => r matches Some((b, ts, em, f)) && b == is_tag && f == e && i < f <= v@.len()
                && (is_tag ==> (ts matches Some(x) && x@ == t))
                && (!is_tag ==> (em matches Some(x) && x@ == t)),
            None => r is None,
        },
{
    match word_at(v, i, CharClass::Tag) {
        Some(e) => Some((true, Some(string_of(v, i, e)), None, e)),
        None => match parse_emoji_at(v, i) {
            Some((em, e)) => Some((false, None, Some(em), e)),
            None => None,
        },
    }
}

fn terms_exec(v: &Vec<char>) -> (r: (Vec<String>, Vec<Emoji>, usize))
    ensures
        (r.0.deep_view(), r.1.deep_view(), r.2 as int) == terms_at(v@, 0),
        r.2 <= v@.len(),
{
    let a = ms0_at(v, 0);
    let mut tags: Vec<String> = Vec::new();
    let mut emoji: Vec<Emoji> = Vec::new();
    let mut pos: usize = a;
    match term_exec(v, a) {
        Some((is_tag, ts, em, e)) => {
            if is_tag {
                match ts { Some(t) => { let ghost tv = t@; tags.push(t); assert(tags.deep_view() =~= seq![tv]); }, None => {} }
                assert(emoji.deep_view() =~= Seq::<Seq<char>>::empty());
            } else {
                match em { Some(x) => { let ghost xv = x@; emoji.push(x); assert(emoji.deep_view() =~= seq![xv]); }, None => {} }
                assert(tags.deep_view() =~= Seq::<Seq<char>>::empty());
            }
            pos = e;
            let ghost target = more_terms(v@, e as int, tags.deep_view(), emoji.deep_view());
            loop
                invariant
                    pos <= v@.len(),
                    more_terms(v@, pos as int, tags.deep_view(), emoji.deep_view()) == target,
                ensures
                    (tags.deep_view(), emoji.deep_view(), pos as int) == target,
                    pos <= v@.len(),
                decreases v@.len() - pos,
            {
                let j = ms0_at(v, pos);
                if j > pos {
                    match term_exec(v, j) {
                        Some((is_tag, ts, em, e2)) => {
                            if is_tag {
                                match ts {
                                    Some(t) => {
                                        let ghost before = tags.deep_view();
                                        let ghost tv = t@;
                                        tags.push(t);
                                        assert(tags.deep_view() =~= before.push(tv));
                                    },
                                    None => {},
                                }
                            } else {
                                match em {
                                    Some(x) => {
                                        let ghost before = emoji.deep_view();
                                        let ghost xv = x@;
                                        emoji.push(x);
                                        assert(emoji.deep_view() =~= before.push(xv));
                                    },
                                    None => {},
                                }
                            }
                            pos = e2;
                        },
                        None => break,
                    }
                } else {
                    break;
                }
            }
        },
        None => {
            assert(tags.deep_view() =~= Seq::<Seq<char>>::empty());
            assert(emoji.deep_view() =~= Seq::<Seq<char>>::empty());
        },
    }
    let end = ms0_at(v, pos);
    (tags, emoji, end)
}

fn paren_word_at(v: &Vec<char>, kw: &str, class: CharClass) -> (r: Option<(usize, usize, usize)>)
    ensures
        r matches Some((a, b, f)) ==> a <= b <= v@.len() && f <= v@.len()
            && paren_word(v@, kw@, class) == Some((v@.subrange(a as int, b as int), f as int)),
        r is None ==> paren_word(v@, kw@, class) is None,
{
    match kw_at(v, 0, kw) {
        Some(i) => match word_at(v, i, class) {
            Some(e) => match kw_at(v, e, ")") {
                Some(f) => Some((i, e, f)),
                None => None,
            },
            None => None,
        },
        None => None,
    }
}

pub open spec fn qv(r: Option<(InlineQueryData, usize)>) -> QParsed {
    match r {
        Some((q, e)) => Some((q@, e as int)),
        None => None,
    }
}

fn alt_sticker(v: &Vec<char>) -> (r: Option<(InlineQueryData, usize)>)
    ensures
        qv(r) == q_sticker(v@),
        r matches Some((_, e)) ==> e <= v@.len(),
{
    match paren_word_at(v, "(s:", CharClass::StickerId) {
        Some((a, b, i)) => {
            let (tags, e) = groups_exec(v, i);
            Some((InlineQueryData::SearchTagsForSticker { tags, unique_id: string_of(v, a, b) }, e))
        },
        None => None,
    }
}

fn alt_set(v: &Vec<char>) -> (r: Option<(InlineQueryData, usize)>)
    ensures
        qv(r) == q_set(v@),
        r matches Some((_, e)) ==> e <= v@.len(),
{
    match choice2_at(v, 0, "(se:", "(su:") {
        Some((tag, i)) => match word_at(v, i, CharClass::SetName) {
            Some(e) => match kw_at(v, e, ")") {
                Some(f) => {
                    let (tags, end) = groups_exec(v, f);
                    let operation = if tag { SetOperation::Tag } else { SetOperation::Untag };
                    Some((InlineQueryData::SearchTagsForStickerSet { tags, set_name: string_of(v, i, e), operation }, end))
                },
                None => None,
            },
            None => None,
        },
        None => None,
    }
}

fn alt_paren_id(v: &Vec<char>, kw: &str, which: u8) -> (r: Option<(InlineQueryData, usize)>)
    requires
        which <= 5,
    ensures
        qv(r) == q_paren_id(v@, kw@, which as int),
        r matches Some((_, e)) ==> e <= v@.len(),
{
    match paren_word_at(v, kw, CharClass::StickerId) {
        Some((a, b, e)) => {
            let id = string_of(v, a, b);
            let q = if which == 0 {
                InlineQueryData::ListAllSetsThatContainSticker { sticker_id: id }
            } else if which == 1 {
                InlineQueryData::ListOverlappingSets { sticker_id: id }
            } else if which == 2 {
                InlineQueryData::ListSetStickersByDate { sticker_id: id }
            } else if which == 3 {
                InlineQueryData::ListAllTagsFromSet { sticker_id: id }
            } else if which == 4 {
                InlineQueryData::ListSimilarStickers { unique_id: id, aspect: SimilarityAspect::Color }
            } else {
                InlineQueryData::ListSimilarStickers { unique_id: id, aspect: SimilarityAspect::Embedding }
            };
            Some((q, e))
        },
        None => None,
    }
}

fn alt_user_sets(v: &Vec<char>) -> (r: Option<(InlineQueryData, usize)>)
    ensures
        qv(r) == q_user_sets(v@),
        r matches Some((_, e)) ==> e <= v@.len(),
{
    match paren_word_at(v, "(usersets:", CharClass::Digit) {
        Some((a, b, e)) => match std_parse_range(v, a, b, true, i64::MIN, i64::MAX as u64) {
            Some(n) => Some((InlineQueryData::SetsByUserId { user_id: n as i64 }, e)),
            None => None,
        },
        None => None,
    }
}

fn alt_add(v: &Vec<char>) -> (r: Option<(InlineQueryData, usize)>)
    ensures
        qv(r) == q_add(v@),
        r matches Some((_, e)) ==> e <= v@.len(),
{
    match paren_word_at(v, "(add:", CharClass::StickerId) {
        Some((a, b, i)) => {
            let rest = crate::numbers::sub_vec(v, i, v.len());
            assert(rest@ == v@.skip(i as int));
            let (x, y) = trim_bounds(&rest);
            let set_title = if x == y { None } else { Some(string_of(&rest, x, y)) };
            Some((InlineQueryData::AddToUserSet { sticker_id: string_of(v, a, b), set_title }, v.len()))
        },
        None => None,
    }
}

fn alt_blacklist(v: &Vec<char>) -> (r: Option<(InlineQueryData, usize)>)
    ensures
        qv(r) == q_blacklist(v@),
        r matches Some((_, e)) ==> e <= v@.len(),
{
    match kw_at(v, 0, "(blacklist)") {
        Some(i) => {
            let (tags, e) = tags_exec(v, i);
            Some((InlineQueryData::SearchTagsForBlacklist { tags }, e))
        },
        None => None,
    }
}

fn alt_rest(v: &Vec<char>, kw: &str, which: u8) -> (r: Option<(InlineQueryData, usize)>)
    requires
        which <= 2,
    ensures
        qv(r) == q_rest(v@, kw@, which as int),
        r matches Some((_, e)) ==> e <= v@.len(),
{
    match kw_at(v, 0, kw) {
        Some(i) => {
            let rest = string_of(v, i, v.len());
            assert(v@.subrange(i as int, v@.len() as int) == v@.skip(i as int));
            let q = if which == 0 {
                InlineQueryData::TagCreatorTagId { tag_id: rest, kind: TagKind::Main }
            } else if which == 1 {
                InlineQueryData::TagCreatorTagId { tag_id: rest, kind: TagKind::Alias }
            } else {
                InlineQueryData::SearchByEmbedding { query: rest }
            };
            Some((q, v.len()))
        },
        None => None,
    }
}

fn alt_continuous(v: &Vec<char>) -> (r: Option<(InlineQueryData, usize)>)
    ensures
        qv(r) == q_continuous(v@),
        r matches Some((_, e)) ==> e <= v@.len(),
{
    match choice2_at(v, 0, "(cont)", "(-cont)") {
        Some((tag, i)) => {
            let (tags, e) = groups_exec(v, i);
            let operation = if tag { SetOperation::Tag } else { SetOperation::Untag };
            Some((InlineQueryData::SearchTagsForContinuousTagMode { tags, operation }, e))
        },
        None => None,
    }
}

fn alt_any(v: &Vec<char>) -> (r: Option<(InlineQueryData, usize)>)
    ensures
        qv(r) == q_any(v@),
        r matches Some((_, e)) ==> e <= v@.len(),
{
    let r = alt_sticker(v);
    if r.is_some() { return r; }
    let r = alt_set(v);
    if r.is_some() { return r; }
    let r = alt_paren_id(v, "(contains:", 0);
    if r.is_some() { return r; }
    let r = alt_paren_id(v, "(overlap:", 1);
    if r.is_some() { return r; }
    let r = alt_paren_id(v, "(dates:", 2);
    if r.is_some() { return r; }
    let r = alt_user_sets(v);
    if r.is_some() { return r; }
    let r = alt_paren_id(v, "(settags:", 3);
    if r.is_some() { return r; }
    let r = alt_add(v);
    if r.is_some() { return r; }
    let r = alt_blacklist(v);
    if r.is_some() { return r; }
    let r = alt_rest(v, "(tag)", 0);
    if r.is_some() { return r; }
    let r = alt_rest(v, "(alias)", 1);
    if r.is_some() { return r; }
    let r = alt_rest(v, "(embed)", 2);
    if r.is_some() { return r; }
    match kw_at(v, 0, "(dup)") {
        Some(e) => return Some((InlineQueryData::ListMostDuplicatedStickers, e)),
        None => {},
    }
    match kw_at(v, 0, "(emo)") {
        Some(e) => return Some((InlineQueryData::ListMostUsedEmojis, e)),
        None => {},
    }
    match kw_at(v, 0, "(rec)") {
        Some(e) => return Some((InlineQueryData::ListRecommendationModeRecommendations, e)),
        None => {},
    }
    let r = alt_continuous(v);
    if r.is_some() { return r; }
    let r = alt_paren_id(v, "(color:", 4);
    if r.is_some() { return r; }
    let r = alt_paren_id(v, "(embed:", 5);
    if r.is_some() { return r; }
    let (tags, emoji, e) = terms_exec(v);
    Some((InlineQueryData::SearchStickers { tags, emoji }, e))
}

impl TryFrom<String> for InlineQueryData {
    type Error = UserError;

    fn try_from(input: String) -> (r: Result<InlineQueryData, UserError>)
        ensures
            r matches Ok(q) ==> parse_query(input@) == Some(q@),
            r is Err ==> parse_query(input@) is None,
            r matches Err(e) ==> (e matches UserError::ParseError(pos, rest)
                && pos == byte_len(input@.take(query_stop(input@)))
                && rest@ == input@.skip(query_stop(input@))),
    {
        InlineQueryData::parse(input.as_str())
    }
}

impl vstd::std_specs::convert::TryFromSpecImpl<String> for InlineQueryData {
    open spec fn obeys_try_from_spec() -> bool {
        false
    }

    open spec fn try_from_spec(v: String) -> Result<InlineQueryData, UserError> {
        arbitrary()
    }
}

/// The kind of tag a number denotes: 1 is an alias, any other number the main kind.
pub open spec fn tag_kind_of(n: int) -> TagKind {
    if n == 1 { TagKind::Alias } else { TagKind::Main }
}

impl TagKind {
    /// Reads a tag kind from its number; a text that is no `u8` is an error at position 0.
    pub fn parse(s: &str) -> (r: Result<TagKind, UserError>)
        ensures
            match std_parse_int(s@, false, 0, 255) {
                Some(n) => r == Ok::<TagKind, UserError>(tag_kind_of(n)),
                None => r matches Err(UserError::ParseError(pos, rest)) && pos == 0 && rest@ == s@,
            },
    {
        let v = to_chars(s);
        assert(v@.subrange(0, v@.len() as int) == v@);
        match std_parse_range(&v, 0, v.len(), false, 0, 255) {
            Some(n) => if n == 1 { Ok(TagKind::Alias) } else { Ok(TagKind::Main) },
            None => Err(UserError::ParseError(0, s.to_owned())),
        }
    }

    /// The number of the kind.
    pub fn to_u8(&self) -> (r: u8)
        ensures
            r == (match self { TagKind::Main => 0u8, TagKind::Alias => 1u8 }),
    {
        match self {
            TagKind::Main => 0,
            TagKind::Alias => 1,
        }
    }
}

impl std::str::FromStr for TagKind {
    type Err = UserError;

    fn from_str(s: &str) -> (r: Result<TagKind, UserError>)
        ensures
            match std_parse_int(s@, false, 0, 255) {
                Some(n) => r == Ok::<TagKind, UserError>(tag_kind_of(n)),
                None => r matches Err(UserError::ParseError(pos, rest)) && pos == 0 && rest@ == s@,
            },
    {
        TagKind::parse(s)
    }
}

impl InlineQueryData {
    /// Reads a query from its text.  Where the text holds more than the
    /// query, the error gives the byte position where reading stopped and
    /// the rest of the text.
    pub fn parse(input: &str) -> (r: Result<InlineQueryData, UserError>)
        ensures
            r matches Ok(q) ==> parse_query(input@) == Some(q@),
            r is Err ==> parse_query(input@) is None,
            r matches Err(e) ==> (e matches UserError::ParseError(pos, rest)
                && pos == byte_len(input@.take(query_stop(input@)))
                && rest@ == input@.skip(query_stop(input@))),
    {
        let v = to_chars(input);
        let total = input.as_bytes().len();
        match alt_any(&v) {
            Some((q, e)) => {
                let f = ms0_at(&v, e);
                if f == v.len() {
                    Ok(q)
                } else {
                    proof {
                        crate::errors::lemma_byte_len_utf8(v@);
                        crate::errors::lemma_byte_len_prefix(v@, f as int);
                        assert(byte_len(v@) == total);
                    }
                    let pos = byte_len_of(&v, f);
                    let rest = string_of(&v, f, v.len());
                    assert(v@.subrange(f as int, v@.len() as int) == v@.skip(f as int));
                    Err(UserError::ParseError(pos, rest))
                }
            },
            None => {
                proof {
                    crate::errors::lemma_byte_len_utf8(v@);
                    crate::errors::lemma_byte_len_prefix(v@, 0);
                    assert(byte_len(v@) == total);
                }
                let pos = byte_len_of(&v, 0);
                let rest = string_of(&v, 0, v.len());
                assert(v@.subrange(0, v@.len() as int) == v@.skip(0));
                Err(UserError::ParseError(pos, rest))
            },
        }
    }
}

// ---------------------------------------------------------------------------
// Writing
// ---------------------------------------------------------------------------

fn push_groups(out: &mut String, groups: &Vec<Vec<String>>)
    ensures
        final(out)@ == old(out)@ + groups_text(groups.deep_view()),
{
    let ghost g = groups.deep_view();
    let mut i: usize = 0;
    while i < groups.len()
        invariant
            0 <= i <= groups@.len(),
            g == groups.deep_view(),
            g.len() == groups@.len(),
            out@ == old(out)@ + groups_text(g.take(i as int)),
        decreases groups@.len() - i,
    {
        let ghost before = out@;
        if i > 0 {
            push_str(out, ", ");
        }
        let ghost mid = out@;
        push_join(out, &groups[i], " ");
        proof {
            let t = g.take(i + 1);
            assert(t.drop_last() == g.take(i as int));
            assert(t.last() == groups@[i as int].deep_view());
            if i == 0 {
                assert(g.take(0) =~= Seq::<Seq<Seq<char>>>::empty());
            }
        }
        i = i + 1;
    }
    assert(g.take(groups@.len() as int) == g);
}

fn push_emojis(out: &mut String, es: &Vec<Emoji>)
    ensures
        final(out)@ == old(out)@ + emojis_text(es.deep_view()),
{
    let ghost g = es.deep_view();
    let mut i: usize = 0;
    while i < es.len()
        invariant
            0 <= i <= es@.len(),
            g == es.deep_view(),
            g.len() == es@.len(),
            out@ == old(out)@ + emojis_text(g.take(i as int)),
        decreases es@.len() - i,
    {
        if i > 0 {
            push_str(out, " ");
        }
        let t = es[i].to_string_with_variant();
        push_str(out, t.as_str());
        proof {
            let tk = g.take(i + 1);
            assert(tk.drop_last() == g.take(i as int));
            assert(tk.last() == es@[i as int]@);
            if i == 0 {
                assert(g.take(0) =~= Seq::<Seq<char>>::empty());
            }
        }
        i = i + 1;
    }
    assert(g.take(es@.len() as int) == g);
}

impl InlineQueryData {
    /// The text of the query.
    pub fn to_string(&self) -> (r: String)
        ensures
            r@ == query_text(self@),
    {
        let mut out = String::new();
        match self {
            InlineQueryData::SearchTagsForSticker { unique_id, tags } => {
                push_str(&mut out, "(s:");
                push_str(&mut out, unique_id.as_str());
                push_str(&mut out, ") ");
                push_groups(&mut out, tags);
            },
            InlineQueryData::ListAllSetsThatContainSticker { sticker_id } => {
                push_str(&mut out, "(contains:");
                push_str(&mut out, sticker_id.as_str());
                push_str(&mut out, ") ");
            },
            InlineQueryData::ListOverlappingSets { sticker_id } => {
                push_str(&mut out, "(overlap:");
                push_str(&mut out, sticker_id.as_str());
                push_str(&mut out, ") ");
            },
            InlineQueryData::ListSetStickersByDate { sticker_id } => {
                push_str(&mut out, "(dates:");
                push_str(&mut out, sticker_id.as_str());
                push_str(&mut out, ") ");
            },
            InlineQueryData::ListAllTagsFromSet { sticker_id } => {
                push_str(&mut out, "(settags:");
                push_str(&mut out, sticker_id.as_str());
                push_str(&mut out, ") ");
            },
            InlineQueryData::AddToUserSet { sticker_id, set_title } => {
                push_str(&mut out, "(add:");
                push_str(&mut out, sticker_id.as_str());
                push_str(&mut out, ") ");
                match set_title {
                    Some(t) => push_str(&mut out, t.as_str()),
                    None => {
                        assert(out@ + Seq::<char>::empty() == out@);
                    },
                }
            },
            InlineQueryData::SearchStickers { emoji, tags } => {
                let mut e = String::new();
                push_emojis(&mut e, emoji);
                push_str(&mut out, e.as_str());
                if !e.as_str().is_empty() {
                    push_str(&mut out, " ");
                } else {
                    assert(out@ + Seq::<char>::empty() == out@);
                }
                push_join(&mut out, tags, " ");
            },
            InlineQueryData::SearchTagsForBlacklist { tags } => {
                push_str(&mut out, "(blacklist) ");
                push_join(&mut out, tags, " ");
            },
            InlineQueryData::SearchTagsForStickerSet { set_name, operation, tags } => {
                match operation {
                    SetOperation::Tag => push_str(&mut out, "(se:"),
                    SetOperation::Untag => push_str(&mut out, "(su:"),
                }
                push_str(&mut out, set_name.as_str());
                push_str(&mut out, ") ");
                push_groups(&mut out, tags);
            },
            InlineQueryData::TagCreatorTagId { tag_id, kind } => {
                match kind {
                    TagKind::Main => push_str(&mut out, "(tag) "),
                    TagKind::Alias => push_str(&mut out, "(alias) "),
                }
                push_str(&mut out, tag_id.as_str());
            },
            InlineQueryData::SearchTagsForContinuousTagMode { operation, tags } => {
                match operation {
                    SetOperation::Tag => push_str(&mut out, "(cont) "),
                    SetOperation::Untag => push_str(&mut out, "(-cont) "),
                }
                push_groups(&mut out, tags);
            },
            InlineQueryData::ListSimilarStickers { aspect, unique_id } => {
                match aspect {
                    SimilarityAspect::Color => push_str(&mut out, "(color:"),
                    SimilarityAspect::Embedding => push_str(&mut out, "(embed:"),
                }
                push_str(&mut out, unique_id.as_str());
                push_str(&mut out, ") ");
            },
            InlineQueryData::SearchByEmbedding { query } => {
                push_str(&mut out, "(embed) ");
                push_str(&mut out, query.as_str());
            },
            InlineQueryData::ListMostDuplicatedStickers => push_str(&mut out, "(dup) "),
            InlineQueryData::ListMostUsedEmojis => push_str(&mut out, "(emo) "),
            InlineQueryData::ListRecommendationModeRecommendations => push_str(&mut out, "(rec) "),
            InlineQueryData::SetsByUserId { user_id } => {
                push_str(&mut out, "(usersets:");
                push_dec_i64(&mut out, *user_id);
                push_str(&mut out, ") ");
            },
        }
        out
    }

    /// Tags for a sticker, with no tags yet.
    pub fn empty_sticker_query(sticker_unique_id: &str) -> (q: Self)
        ensures
            q@ == InlineQueryView::SearchTagsForSticker(Seq::empty(), sticker_unique_id@),
    {
        let tags: Vec<Vec<String>> = Vec::new();
        assert(tags.deep_view() =~= Seq::<Seq<Seq<char>>>::empty());
        InlineQueryData::SearchTagsForSticker { unique_id: sticker_unique_id.to_owned(), tags }
    }

    /// Tags for a sticker.
    pub fn sticker_query(sticker_unique_id: &str, tags: Vec<Vec<String>>) -> (q: Self)
        ensures
            q@ == InlineQueryView::SearchTagsForSticker(tags.deep_view(), sticker_unique_id@),
    {
        InlineQueryData::SearchTagsForSticker { unique_id: sticker_unique_id.to_owned(), tags }
    }

    /// Stickers similar to a sticker in one aspect.
    pub fn similar(sticker_unique_id: &str, aspect: SimilarityAspect) -> (q: Self)
        ensures
            q@ == InlineQueryView::ListSimilarStickers(sticker_unique_id@, aspect),
    {
        InlineQueryData::ListSimilarStickers { unique_id: sticker_unique_id.to_owned(), aspect }
    }

    /// Stickers whose embedding matches a text.
    pub fn embedding(query: String) -> (q: Self)
        ensures
            q@ == InlineQueryView::SearchByEmbedding(query@),
    {
        InlineQueryData::SearchByEmbedding { query }
    }

    /// Tags for the blacklist.
    pub fn blacklist_query(tags: Vec<String>) -> (q: Self)
        ensures
            q@ == InlineQueryView::SearchTagsForBlacklist(tags.deep_view()),
    {
        InlineQueryData::SearchTagsForBlacklist { tags }
    }

    /// Tags to add to or remove from all stickers of a set.
    pub fn set_operation(set_name: &str, tags: Vec<Vec<String>>, operation: SetOperation) -> (q: Self)
        ensures
            q@ == InlineQueryView::SearchTagsForStickerSet(tags.deep_view(), set_name@, operation),
    {
        InlineQueryData::SearchTagsForStickerSet { set_name: set_name.to_owned(), operation, tags }
    }

    /// Tags for continuous tag mode.
    pub fn continuous_tag_mode(tags: Vec<Vec<String>>, operation: SetOperation) -> (q: Self)
        ensures
            q@ == InlineQueryView::SearchTagsForContinuousTagMode(tags.deep_view(), operation),
    {
        InlineQueryData::SearchTagsForContinuousTagMode { operation, tags }
    }

    /// The id of a tag being created.
    pub fn tag_creator(tag_id: String, kind: TagKind) -> (q: Self)
        ensures
            q@ == InlineQueryView::TagCreatorTagId(tag_id@, kind),
    {
        InlineQueryData::TagCreatorTagId { tag_id, kind }
    }

    /// Stickers with the tags and emoji.
    pub fn search_emoji(tags: Vec<String>, emoji: Vec<Emoji>) -> (q: Self)
        ensures
            q@ == InlineQueryView::SearchStickers(tags.deep_view(), emoji.deep_view()),
    {
        InlineQueryData::SearchStickers { emoji, tags }
    }

    /// Stickers with the tags.
    pub fn search(tags: Vec<String>) -> (q: Self)
        ensures
            q@ == InlineQueryView::SearchStickers(tags.deep_view(), Seq::empty()),
    {
        let emoji: Vec<Emoji> = Vec::new();
        assert(emoji.deep_view() =~= Seq::<Seq<char>>::empty());
        InlineQueryData::SearchStickers { emoji, tags }
    }

    /// Sets that contain a sticker.
    pub fn sets(sticker_id: String) -> (q: Self)
        ensures
            q@ == InlineQueryView::ListAllSetsThatContainSticker(sticker_id@),
    {
        InlineQueryData::ListAllSetsThatContainSticker { sticker_id }
    }

    /// Sets that share stickers with the set of a sticker.
    pub fn overlapping_sets(sticker_id: String) -> (q: Self)
        ensures
            q@ == InlineQueryView::ListOverlappingSets(sticker_id@),
    {
        InlineQueryData::ListOverlappingSets { sticker_id }
    }

    /// The stickers of a sticker's set by date.
    pub fn set_stickers_by_date(sticker_id: String) -> (q: Self)
        ensures
            q@ == InlineQueryView::ListSetStickersByDate(sticker_id@),
    {
        InlineQueryData::ListSetStickersByDate { sticker_id }
    }

    /// All tags of a sticker's set.
    pub fn all_set_tags(sticker_id: String) -> (q: Self)
        ensures
            q@ == InlineQueryView::ListAllTagsFromSet(sticker_id@),
    {
        InlineQueryData::ListAllTagsFromSet { sticker_id }
    }

    pub fn most_duplicated_stickers() -> (q: Self)
        ensures
            q@ == InlineQueryView::ListMostDuplicatedStickers,
    {
        InlineQueryData::ListMostDuplicatedStickers
    }

    pub fn most_used_emojis() -> (q: Self)
        ensures
            q@ == InlineQueryView::ListMostUsedEmojis,
    {
        InlineQueryData::ListMostUsedEmojis
    }

    pub fn recommendations() -> (q: Self)
        ensures
            q@ == InlineQueryView::ListRecommendationModeRecommendations,
    {
        InlineQueryData::ListRecommendationModeRecommendations
    }

    /// Adding a sticker to one of the user's sets, with no set title yet.
    pub fn add_to_user_set(sticker_id: String) -> (q: Self)
        ensures
            q@ == InlineQueryView::AddToUserSet(sticker_id@, None),
    {
        InlineQueryData::AddToUserSet { sticker_id, set_title: None }
    }
}

} // verus!
