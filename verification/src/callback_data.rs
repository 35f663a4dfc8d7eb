//! The data carried by inline keyboard buttons: a compact text such as
//! `s;<sticker id>;t;<tag>` that names the action a button press requests.
use vstd::prelude::*;
use crate::chars::{
    choice2, choice2_at, kw_at, kw_to, push_str, string_of, to_chars, word, word_at, CharClass,
};
use crate::model::{order_from_text, order_text, parse_order_text, Category, StickerOrder};
use crate::numbers::{dec, grammar_unsigned, parse_unsigned_at, push_dec};

verus! {

/// Adding or removing a tag on a sticker.
#[derive(Debug, PartialEq, Eq, Clone)]
pub enum TagOperation {
    Tag(String),
    Untag(String),
}

#[derive(Debug, PartialEq, Eq, Clone, Copy)]
pub enum FavoriteAction {
    Favorite,
    Unfavorite,
}

/// The action that a button press requests.
#[derive(Debug, PartialEq, Eq, Clone)]
pub enum CallbackData {
    NoAction,
    RemoveLinkedChannel,
    RemoveLinkedUser,
    LinkSelf,
    CreateTag,
    Help,
    Start,
    Settings,
    Blacklist,
    FeatureOverview,
    ExitDialog,
    PopularTags,
    GeneralStats,
    PersonalStats,
    LatestSets,
    Info,
    RemoveBlacklistedTag(String),
    RemoveContinuousTag(String),
    RemoveAlias(String),
    UserInfo(u64),
    SetOrder(StickerOrder),
    SetCategory(Option<Category>),
    StickerSetPage { sticker_id: String },
    DownloadSticker { sticker_id: String },
    StickerExplorePage { sticker_id: String },
    ToggleExampleSticker { sticker_id: String },
    Sticker { sticker_id: String, operation: Option<TagOperation> },
    FavoriteSticker { sticker_id: String, operation: FavoriteAction },
    SetLock { sticker_id: String, lock: bool },
    ToggleRecommendSticker { sticker_id: String, positive: bool },
    ChangeSetStatus { set_name: String, banned: bool },
    Merge { sticker_id_a: String, sticker_id_b: String, merge: bool },
    /// Shows who owns the set of the sticker.
    OwnerPage { sticker_id: String },
}

/// `TagOperation` with its tag as a character sequence.
pub enum TagOperationView {
    Tag(Seq<char>),
    Untag(Seq<char>),
}

/// `CallbackData` with its strings as character sequences.
pub enum CallbackDataView {
    NoAction,
    RemoveLinkedChannel,
    RemoveLinkedUser,
    LinkSelf,
    CreateTag,
    Help,
    Start,
    Settings,
    Blacklist,
    FeatureOverview,
    ExitDialog,
    PopularTags,
    GeneralStats,
    PersonalStats,
    LatestSets,
    Info,
    RemoveBlacklistedTag(Seq<char>),
    RemoveContinuousTag(Seq<char>),
    RemoveAlias(Seq<char>),
    UserInfo(u64),
    SetOrder(StickerOrder),
    SetCategory(Option<Category>),
    StickerSetPage(Seq<char>),
    DownloadSticker(Seq<char>),
    StickerExplorePage(Seq<char>),
    ToggleExampleSticker(Seq<char>),
    Sticker(Seq<char>, Option<TagOperationView>),
    FavoriteSticker(Seq<char>, FavoriteAction),
    SetLock(Seq<char>, bool),
    ToggleRecommendSticker(Seq<char>, bool),
    ChangeSetStatus(Seq<char>, bool),
    Merge(Seq<char>, Seq<char>, bool),
    OwnerPage(Seq<char>),
}

impl View for TagOperation {
    type V = TagOperationView;

    open spec fn view(&self) -> TagOperationView {
        match self {
            TagOperation::Tag(t) => TagOperationView::Tag(t@),
            TagOperation::Untag(t) => TagOperationView::Untag(t@),
        }
    }
}

pub open spec fn op_view(op: Option<TagOperation>) -> Option<TagOperationView> {
    match op {
        Some(o) => Some(o@),
        None => None,
    }
}

impl View for CallbackData {
    type V = CallbackDataView;

    open spec fn view(&self) -> CallbackDataView {
        match self {
            CallbackData::NoAction => CallbackDataView::NoAction,
            CallbackData::RemoveLinkedChannel => CallbackDataView::RemoveLinkedChannel,
            CallbackData::RemoveLinkedUser => CallbackDataView::RemoveLinkedUser,
            CallbackData::LinkSelf => CallbackDataView::LinkSelf,
            CallbackData::CreateTag => CallbackDataView::CreateTag,
            CallbackData::Help => CallbackDataView::Help,
            CallbackData::Start => CallbackDataView::Start,
            CallbackData::Settings => CallbackDataView::Settings,
            CallbackData::Blacklist => CallbackDataView::Blacklist,
            CallbackData::FeatureOverview => CallbackDataView::FeatureOverview,
            CallbackData::ExitDialog => CallbackDataView::ExitDialog,
            CallbackData::PopularTags => CallbackDataView::PopularTags,
            CallbackData::GeneralStats => CallbackDataView::GeneralStats,
            CallbackData::PersonalStats => CallbackDataView::PersonalStats,
            CallbackData::LatestSets => CallbackDataView::LatestSets,
            CallbackData::Info => CallbackDataView::Info,
            CallbackData::RemoveBlacklistedTag(t) => CallbackDataView::RemoveBlacklistedTag(t@),
            CallbackData::RemoveContinuousTag(t) => CallbackDataView::RemoveContinuousTag(t@),
            CallbackData::RemoveAlias(t) => CallbackDataView::RemoveAlias(t@),
            CallbackData::UserInfo(u) => CallbackDataView::UserInfo(*u),
            CallbackData::SetOrder(o) => CallbackDataView::SetOrder(*o),
            CallbackData::SetCategory(c) => CallbackDataView::SetCategory(*c),
            CallbackData::StickerSetPage { sticker_id } => CallbackDataView::StickerSetPage(sticker_id@),
            CallbackData::DownloadSticker { sticker_id } => CallbackDataView::DownloadSticker(sticker_id@),
            CallbackData::StickerExplorePage { sticker_id } => CallbackDataView::StickerExplorePage(sticker_id@),
            CallbackData::ToggleExampleSticker { sticker_id } => CallbackDataView::ToggleExampleSticker(sticker_id@),
            CallbackData::OwnerPage { sticker_id } => CallbackDataView::OwnerPage(sticker_id@),
            CallbackData::Sticker { sticker_id, operation } => CallbackDataView::Sticker(sticker_id@, op_view(*operation)),
            CallbackData::FavoriteSticker { sticker_id, operation } => CallbackDataView::FavoriteSticker(sticker_id@, *operation),
            CallbackData::SetLock { sticker_id, lock } => CallbackDataView::SetLock(sticker_id@, *lock),
            CallbackData::ToggleRecommendSticker { sticker_id, positive } => CallbackDataView::ToggleRecommendSticker(sticker_id@, *positive),
            CallbackData::ChangeSetStatus { set_name, banned } => CallbackDataView::ChangeSetStatus(set_name@, *banned),
            CallbackData::Merge { sticker_id_a, sticker_id_b, merge } => CallbackDataView::Merge(sticker_id_a@, sticker_id_b@, *merge),
        }
    }
}

// ---------------------------------------------------------------------------
// Text form
// ---------------------------------------------------------------------------

pub open spec fn tag_operation_text(op: Option<TagOperationView>) -> Seq<char> {
    match op {
        Some(TagOperationView::Tag(t)) => "t;"@ + t,
        Some(TagOperationView::Untag(t)) => "u;"@ + t,
        None => Seq::empty(),
    }
}

pub open spec fn category_text(c: Option<Category>) -> Seq<char> {
    match c {
        Some(c) => dec(c.spec_to_u8() as nat),
        None => "none"@,
    }
}

/// The text that a button carries for `d`.
pub open spec fn callback_text(d: CallbackDataView) -> Seq<char> {
    match d {
        CallbackDataView::Sticker(id, op) => "s;"@ + id + ";"@ + tag_operation_text(op),
        CallbackDataView::Help => "help"@,
        CallbackDataView::FeatureOverview => "features"@,
        CallbackDataView::ExitDialog => "exdia"@,
        CallbackDataView::PopularTags => "pop"@,
        CallbackDataView::GeneralStats => "gstats"@,
        CallbackDataView::PersonalStats => "pstats"@,
        CallbackDataView::LatestSets => "lsets"@,
        CallbackDataView::FavoriteSticker(id, a) => "fav;"@ + id + ";"@
            + (match a { FavoriteAction::Favorite => "add"@, FavoriteAction::Unfavorite => "remove"@ }),
        CallbackDataView::Settings => "settings"@,
        CallbackDataView::Start => "start"@,
        CallbackDataView::Blacklist => "blacklist"@,
        CallbackDataView::NoAction => "noaction"@,
        CallbackDataView::RemoveLinkedUser => "removeuser"@,
        CallbackDataView::LinkSelf => "linkself"@,
        CallbackDataView::CreateTag => "createtag"@,
        CallbackDataView::RemoveLinkedChannel => "removechannel"@,
        CallbackDataView::StickerSetPage(id) => "ssp;"@ + id,
        CallbackDataView::DownloadSticker(id) => "dls;"@ + id,
        CallbackDataView::StickerExplorePage(id) => "sep;"@ + id,
        CallbackDataView::ToggleExampleSticker(id) => "tex;"@ + id,
        CallbackDataView::OwnerPage(id) => "owner;"@ + id,
        CallbackDataView::RemoveBlacklistedTag(t) => "removebl;"@ + t,
        CallbackDataView::RemoveContinuousTag(t) => "removec;"@ + t,
        CallbackDataView::RemoveAlias(t) => "ras;"@ + t,
        CallbackDataView::ChangeSetStatus(name, banned) => "chset;"@ + name + ";"@
            + (if banned { "ban"@ } else { "unban"@ }),
        CallbackDataView::Info => "info"@,
        CallbackDataView::UserInfo(u) => "userinfo;"@ + dec(u as nat),
        CallbackDataView::SetOrder(o) => "order;"@ + dec(o.spec_to_u8() as nat),
        CallbackDataView::SetCategory(c) => "cat;"@ + category_text(c),
        CallbackDataView::SetLock(id, lock) => "lock;"@ + id + ";"@
            + (if lock { "lock"@ } else { "unlock"@ }),
        CallbackDataView::ToggleRecommendSticker(id, positive) => "rec;"@ + id + ";"@
            + (if positive { "positive"@ } else { "negative"@ }),
        CallbackDataView::Merge(a, b, merge) => "merge;"@ + a + ";"@ + b + ";"@
            + (if merge { "true"@ } else { "false"@ }),
    }
}

// ---------------------------------------------------------------------------
// Grammar
// ---------------------------------------------------------------------------

pub type Parsed = Option<(CallbackDataView, int)>;

pub open spec fn or_else(a: Parsed, b: Parsed) -> Parsed {
    if a is Some { a } else { b }
}

pub open spec fn keyword(s: Seq<char>, kw: Seq<char>, d: CallbackDataView) -> Parsed {
    match kw_to(s, 0, kw) {
        Some(e) => Some((d, e)),
        None => None,
    }
}

/// The keyword actions, tried in this order.
pub open spec fn p_simple(s: Seq<char>) -> Parsed {
    let a0 = keyword(s, "start"@, CallbackDataView::Start);
    let a1 = keyword(s, "settings"@, CallbackDataView::Settings);
    let a2 = keyword(s, "features"@, CallbackDataView::FeatureOverview);
    let a3 = keyword(s, "exdia"@, CallbackDataView::ExitDialog);
    let a4 = keyword(s, "pop"@, CallbackDataView::PopularTags);
    let a5 = keyword(s, "gstats"@, CallbackDataView::GeneralStats);
    let a6 = keyword(s, "pstats"@, CallbackDataView::PersonalStats);
    let a7 = keyword(s, "lsets"@, CallbackDataView::LatestSets);
    let a8 = keyword(s, "help"@, CallbackDataView::Help);
    let a9 = keyword(s, "blacklist"@, CallbackDataView::Blacklist);
    let a10 = keyword(s, "info"@, CallbackDataView::Info);
    let a11 = keyword(s, "noaction"@, CallbackDataView::NoAction);
    let a12 = keyword(s, "removeuser"@, CallbackDataView::RemoveLinkedUser);
    let a13 = keyword(s, "linkself"@, CallbackDataView::LinkSelf);
    let a14 = keyword(s, "createtag"@, CallbackDataView::CreateTag);
    let a15 = keyword(s, "removechannel"@, CallbackDataView::RemoveLinkedChannel);
    if a0 is Some { a0 }
    else if a1 is Some { a1 }
    else if a2 is Some { a2 }
    else if a3 is Some { a3 }
    else if a4 is Some { a4 }
    else if a5 is Some { a5 }
    else if a6 is Some { a6 }
    else if a7 is Some { a7 }
    else if a8 is Some { a8 }
    else if a9 is Some { a9 }
    else if a10 is Some { a10 }
    else if a11 is Some { a11 }
    else if a12 is Some { a12 }
    else if a13 is Some { a13 }
    else if a14 is Some { a14 }
    else { a15 }
}

/// `kw` followed by a non-empty run of `class`: the run and the end.
pub open spec fn kw_word(s: Seq<char>, kw: Seq<char>, class: CharClass) -> Option<(Seq<char>, int)> {
    match kw_to(s, 0, kw) {
        Some(i) => match word(s, i, class) {
            Some(e) => Some((s.subrange(i, e), e)),
            None => None,
        },
        None => None,
    }
}

/// `kw`, a run of `class`, `;`, then one of two keywords.
pub open spec fn kw_word_choice(s: Seq<char>, kw: Seq<char>, class: CharClass, kw1: Seq<char>, kw2: Seq<char>) -> Option<(Seq<char>, bool, int)> {
    match kw_word(s, kw, class) {
        Some((w, i)) => match kw_to(s, i, ";"@) {
            Some(j) => match choice2(s, j, kw1, kw2) {
                Some((b, e)) => Some((w, b, e)),
                None => None,
            },
            None => None,
        },
        None => None,
    }
}

pub open spec fn p_word(s: Seq<char>, kw: Seq<char>, class: CharClass, which: int) -> Parsed {
    match kw_word(s, kw, class) {
        Some((w, e)) => Some((
            if which == 0 { CallbackDataView::RemoveBlacklistedTag(w) }
            else if which == 1 { CallbackDataView::RemoveContinuousTag(w) }
            else if which == 2 { CallbackDataView::RemoveAlias(w) }
            else if which == 3 { CallbackDataView::StickerSetPage(w) }
            else if which == 4 { CallbackDataView::DownloadSticker(w) }
            else if which == 5 { CallbackDataView::StickerExplorePage(w) }
            else if which == 6 { CallbackDataView::ToggleExampleSticker(w) }
            else { CallbackDataView::OwnerPage(w) },
            e)),
        None => None,
    }
}

/// `;` then a tag: the part after `t` or `u` in a tag operation.
pub open spec fn semicolon_tag(s: Seq<char>, i: int) -> Option<(Seq<char>, int)> {
    match kw_to(s, i, ";"@) {
        Some(j) => match word(s, j, CharClass::Tag) {
            Some(e) => Some((s.subrange(j, e), e)),
            None => None,
        },
        None => None,
    }
}

/// An optional tag operation at `i`: `t;<tag>` or `u;<tag>`.
pub open spec fn opt_tag_operation(s: Seq<char>, i: int) -> (Option<TagOperationView>, int) {
    let tagged = match kw_to(s, i, "t"@) {
        Some(j) => semicolon_tag(s, j),
        None => None,
    };
    let untagged = match kw_to(s, i, "u"@) {
        Some(j) => semicolon_tag(s, j),
        None => None,
    };
    match tagged {
        Some((t, e)) => (Some(TagOperationView::Tag(t)), e),
        None => match untagged {
            Some((t, e)) => (Some(TagOperationView::Untag(t)), e),
            None => (None, i),
        },
    }
}

pub open spec fn p_sticker(s: Seq<char>) -> Parsed {
    match kw_word(s, "s;"@, CharClass::StickerId) {
        Some((id, i)) => match kw_to(s, i, ";"@) {
            Some(j) => {
                let (op, e) = opt_tag_operation(s, j);
                Some((CallbackDataView::Sticker(id, op), e))
            },
            None => None,
        },
        None => None,
    }
}

pub open spec fn p_change_set(s: Seq<char>) -> Parsed {
    match kw_word_choice(s, "chset;"@, CharClass::Tag, "ban"@, "unban"@) {
        Some((name, banned, e)) => Some((CallbackDataView::ChangeSetStatus(name, banned), e)),
        None => None,
    }
}

pub open spec fn p_user_info(s: Seq<char>) -> Parsed {
    match kw_to(s, 0, "userinfo;"@) {
        Some(i) => match grammar_unsigned(s.skip(i), u64::MAX as nat) {
            Some((n, k)) => Some((CallbackDataView::UserInfo(n as u64), i + k)),
            None => None,
        },
        None => None,
    }
}

pub open spec fn p_order(s: Seq<char>) -> Parsed {
    match kw_to(s, 0, "order;"@) {
        Some(i) => match order_from_text(s.skip(i)) {
            Some(o) => Some((CallbackDataView::SetOrder(o), s.len() as int)),
            None => None,
        },
        None => None,
    }
}

pub open spec fn p_category(s: Seq<char>) -> Parsed {
    let numbered = match kw_to(s, 0, "cat;"@) {
        Some(i) => match grammar_unsigned(s.skip(i), 255) {
            Some((n, k)) => Some((CallbackDataView::SetCategory(Category::spec_from_u8(n as u8)), i + k)),
            None => None,
        },
        None => None,
    };
    or_else(numbered, keyword(s, "cat;none"@, CallbackDataView::SetCategory(None)))
}

pub open spec fn p_lock(s: Seq<char>) -> Parsed {
    match kw_word_choice(s, "lock;"@, CharClass::StickerId, "lock"@, "unlock"@) {
        Some((id, lock, e)) => Some((CallbackDataView::SetLock(id, lock), e)),
        None => None,
    }
}

pub open spec fn p_recommend(s: Seq<char>) -> Parsed {
    match kw_word_choice(s, "rec;"@, CharClass::StickerId, "positive"@, "negative"@) {
        Some((id, positive, e)) => Some((CallbackDataView::ToggleRecommendSticker(id, positive), e)),
        None => None,
    }
}

pub open spec fn p_favorite(s: Seq<char>) -> Parsed {
    match kw_word_choice(s, "fav;"@, CharClass::StickerId, "add"@, "remove"@) {
        Some((id, add, e)) => Some((CallbackDataView::FavoriteSticker(id,
            if add { FavoriteAction::Favorite } else { FavoriteAction::Unfavorite }), e)),
        None => None,
    }
}

pub open spec fn p_merge(s: Seq<char>) -> Parsed {
    match kw_word(s, "merge;"@, CharClass::StickerId) {
        Some((a, i)) => match kw_to(s, i, ";"@) {
            Some(j) => match word(s, j, CharClass::StickerId) {
                Some(k) => match kw_to(s, k, ";"@) {
                    Some(l) => match choice2(s, l, "true"@, "false"@) {
                        Some((m, e)) => Some((CallbackDataView::Merge(a, s.subrange(j, k), m), e)),
                        None => None,
                    },
                    None => None,
                },
                None => None,
            },
            None => None,
        },
        None => None,
    }
}

/// The first alternative that reads a prefix of `s`, in the grammar's order.
pub open spec fn p_any(s: Seq<char>) -> Parsed {
    let a0 = p_simple(s);
    let a1 = p_word(s, "removebl;"@, CharClass::Tag, 0);
    let a2 = p_word(s, "removec;"@, CharClass::Tag, 1);
    let a3 = p_sticker(s);
    let a4 = p_change_set(s);
    let a5 = p_user_info(s);
    let a6 = p_order(s);
    let a7 = p_category(s);
    let a8 = p_word(s, "ras;"@, CharClass::Tag, 2);
    let a9 = p_lock(s);
    let a10 = p_recommend(s);
    let a11 = p_word(s, "ssp;"@, CharClass::StickerId, 3);
    let a12 = p_word(s, "dls;"@, CharClass::StickerId, 4);
    let a13 = p_word(s, "sep;"@, CharClass::StickerId, 5);
    let a14 = p_word(s, "tex;"@, CharClass::StickerId, 6);
    let a15 = p_favorite(s);
    let a16 = p_merge(s);
    let a17 = p_word(s, "owner;"@, CharClass::StickerId, 7);
    if a0 is Some { a0 }
    else if a1 is Some { a1 }
    else if a2 is Some { a2 }
    else if a3 is Some { a3 }
    else if a4 is Some { a4 }
    else if a5 is Some { a5 }
    else if a6 is Some { a6 }
    else if a7 is Some { a7 }
    else if a8 is Some { a8 }
    else if a9 is Some { a9 }
    else if a10 is Some { a10 }
    else if a11 is Some { a11 }
    else if a12 is Some { a12 }
    else if a13 is Some { a13 }
    else if a14 is Some { a14 }
    else if a15 is Some { a15 }
    else if a16 is Some { a16 }
    else { a17 }
}

/// The action that the button text `s` denotes: the first alternative
/// that reads a prefix of `s` must read all of it.
pub open spec fn parse_callback(s: Seq<char>) -> Option<CallbackDataView> {
    match p_any(s) {
        Some((d, e)) => if e == s.len() { Some(d) } else { None },
        None => None,
    }
}


// ---------------------------------------------------------------------------
// Reading
// ---------------------------------------------------------------------------

pub open spec fn rv(r: Option<(CallbackData, usize)>) -> Parsed {
    match r {
        Some((d, e)) => Some((d@, e as int)),
        None => None,
    }
}

fn kw_word_at(v: &Vec<char>, kw: &str, class: CharClass) -> (r: Option<(usize, usize)>)
    ensures
        r matches Some((a, e)) ==> a <= e <= v@.len() && kw_word(v@, kw@, class) == Some((v@.subrange(a as int, e as int), e as int)),
        r is None ==> kw_word(v@, kw@, class) is None,
{
    match kw_at(v, 0, kw) {
        Some(i) => match word_at(v, i, class) {
            Some(e) => Some((i, e)),
            None => None,
        },
        None => None,
    }
}

fn kw_word_choice_at(v: &Vec<char>, kw: &str, class: CharClass, kw1: &str, kw2: &str) -> (r: Option<(usize, usize, bool, usize)>)
    ensures
        r matches Some((a, b, c, e)) ==> a <= b <= v@.len() && e <= v@.len()
            && kw_word_choice(v@, kw@, class, kw1@, kw2@) == Some((v@.subrange(a as int, b as int), c, e as int)),
        r is None ==> kw_word_choice(v@, kw@, class, kw1@, kw2@) is None,
{
    match kw_word_at(v, kw, class) {
        Some((a, i)) => match kw_at(v, i, ";") {
            Some(j) => match choice2_at(v, j, kw1, kw2) {
                Some((c, e)) => Some((a, i, c, e)),
                None => None,
            },
            None => None,
        },
        None => None,
    }
}

fn alt_simple(v: &Vec<char>) -> (r: Option<(CallbackData, usize)>)
    ensures
        rv(r) == p_simple(v@),
{
    if let Some(e) = kw_at(v, 0, "start") {
        return Some((CallbackData::Start, e));
    }
    if let Some(e) = kw_at(v, 0, "settings") {
        return Some((CallbackData::Settings, e));
    }
    if let Some(e) = kw_at(v, 0, "features") {
        return Some((CallbackData::FeatureOverview, e));
    }
    if let Some(e) = kw_at(v, 0, "exdia") {
        return Some((CallbackData::ExitDialog, e));
    }
    if let Some(e) = kw_at(v, 0, "pop") {
        return Some((CallbackData::PopularTags, e));
    }
    if let Some(e) = kw_at(v, 0, "gstats") {
        return Some((CallbackData::GeneralStats, e));
    }
    if let Some(e) = kw_at(v, 0, "pstats") {
        return Some((CallbackData::PersonalStats, e));
    }
    if let Some(e) = kw_at(v, 0, "lsets") {
        return Some((CallbackData::LatestSets, e));
    }
    if let Some(e) = kw_at(v, 0, "help") {
        return Some((CallbackData::Help, e));
    }
    if let Some(e) = kw_at(v, 0, "blacklist") {
        return Some((CallbackData::Blacklist, e));
    }
    if let Some(e) = kw_at(v, 0, "info") {
        return Some((CallbackData::Info, e));
    }
    if let Some(e) = kw_at(v, 0, "noaction") {
        return Some((CallbackData::NoAction, e));
    }
    if let Some(e) = kw_at(v, 0, "removeuser") {
        return Some((CallbackData::RemoveLinkedUser, e));
    }
    if let Some(e) = kw_at(v, 0, "linkself") {
        return Some((CallbackData::LinkSelf, e));
    }
    if let Some(e) = kw_at(v, 0, "createtag") {
        return Some((CallbackData::CreateTag, e));
    }
    if let Some(e) = kw_at(v, 0, "removechannel") {
        return Some((CallbackData::RemoveLinkedChannel, e));
    }
    None
}

fn alt_word(v: &Vec<char>, kw: &str, class: CharClass, which: u8) -> (r: Option<(CallbackData, usize)>)
    requires
        which <= 7,
    ensures
        rv(r) == p_word(v@, kw@, class, which as int),
{
    match kw_word_at(v, kw, class) {
        Some((a, e)) => {
            let w = string_of(v, a, e);
            let d = if which == 0 {
                CallbackData::RemoveBlacklistedTag(w)
            } else if which == 1 {
                CallbackData::RemoveContinuousTag(w)
            } else if which == 2 {
                CallbackData::RemoveAlias(w)
            } else if which == 3 {
                CallbackData::StickerSetPage { sticker_id: w }
            } else if which == 4 {
                CallbackData::DownloadSticker { sticker_id: w }
            } else if which == 5 {
                CallbackData::StickerExplorePage { sticker_id: w }
            } else if which == 6 {
                CallbackData::ToggleExampleSticker { sticker_id: w }
            } else {
                CallbackData::OwnerPage { sticker_id: w }
            };
            Some((d, e))
        },
        None => None,
    }
}

fn semicolon_tag_at(v: &Vec<char>, i: usize) -> (r: Option<(usize, usize)>)
    requires
        i <= v@.len(),
    ensures
        r matches Some((a, e)) ==> a <= e <= v@.len() && semicolon_tag(v@, i as int) == Some((v@.subrange(a as int, e as int), e as int)),
        r is None ==> semicolon_tag(v@, i as int) is None,
{
    match kw_at(v, i, ";") {
        Some(j) => match word_at(v, j, CharClass::Tag) {
            Some(e) => Some((j, e)),
            None => None,
        },
        None => None,
    }
}

fn opt_tag_operation_at(v: &Vec<char>, i: usize) -> (r: (Option<TagOperation>, usize))
    requires
        i <= v@.len(),
    ensures
        opt_tag_operation(v@, i as int) == (op_view(r.0), r.1 as int),
        r.1 <= v@.len(),
{
    let tagged = match kw_at(v, i, "t") {
        Some(j) => semicolon_tag_at(v, j),
        None => None,
    };
    match tagged {
        Some((a, e)) => return (Some(TagOperation::Tag(string_of(v, a, e))), e),
        None => {},
    }
    let untagged = match kw_at(v, i, "u") {
        Some(j) => semicolon_tag_at(v, j),
        None => None,
    };
    match untagged {
        Some((a, e)) => (Some(TagOperation::Untag(string_of(v, a, e))), e),
        None => (None, i),
    }
}

fn alt_sticker(v: &Vec<char>) -> (r: Option<(CallbackData, usize)>)
    ensures
        rv(r) == p_sticker(v@),
{
    match kw_word_at(v, "s;", CharClass::StickerId) {
        Some((a, i)) => match kw_at(v, i, ";") {
            Some(j) => {
                let (operation, e) = opt_tag_operation_at(v, j);
                Some((CallbackData::Sticker { sticker_id: string_of(v, a, i), operation }, e))
            },
            None => None,
        },
        None => None,
    }
}

fn alt_change_set(v: &Vec<char>) -> (r: Option<(CallbackData, usize)>)
    ensures
        rv(r) == p_change_set(v@),
{
    match kw_word_choice_at(v, "chset;", CharClass::Tag, "ban", "unban") {
        Some((a, b, banned, e)) => Some((CallbackData::ChangeSetStatus { set_name: string_of(v, a, b), banned }, e)),
        None => None,
    }
}

fn alt_user_info(v: &Vec<char>) -> (r: Option<(CallbackData, usize)>)
    ensures
        rv(r) == p_user_info(v@),
{
    match kw_at(v, 0, "userinfo;") {
        Some(i) => match parse_unsigned_at(v, i, u64::MAX) {
            Some((n, e)) => Some((CallbackData::UserInfo(n), e)),
            None => None,
        },
        None => None,
    }
}

fn alt_order(v: &Vec<char>) -> (r: Option<(CallbackData, usize)>)
    ensures
        rv(r) == p_order(v@),
{
    match kw_at(v, 0, "order;") {
        Some(i) => {
            let rest = string_of(v, i, v.len());
            assert(v@.subrange(i as int, v@.len() as int) == v@.skip(i as int));
            match parse_order_text(rest.as_str()) {
                Some(o) => Some((CallbackData::SetOrder(o), v.len())),
                None => None,
            }
        },
        None => None,
    }
}

fn alt_category(v: &Vec<char>) -> (r: Option<(CallbackData, usize)>)
    ensures
        rv(r) == p_category(v@),
{
    match kw_at(v, 0, "cat;") {
        Some(i) => match parse_unsigned_at(v, i, 255) {
            Some((n, e)) => return Some((CallbackData::SetCategory(Category::from_u8(n as u8)), e)),
            None => {},
        },
        None => {},
    }
    match kw_at(v, 0, "cat;none") {
        Some(e) => Some((CallbackData::SetCategory(None), e)),
        None => None,
    }
}

fn alt_lock(v: &Vec<char>) -> (r: Option<(CallbackData, usize)>)
    ensures
        rv(r) == p_lock(v@),
{
    match kw_word_choice_at(v, "lock;", CharClass::StickerId, "lock", "unlock") {
        Some((a, b, lock, e)) => Some((CallbackData::SetLock { sticker_id: string_of(v, a, b), lock }, e)),
        None => None,
    }
}

fn alt_recommend(v: &Vec<char>) -> (r: Option<(CallbackData, usize)>)
    ensures
        rv(r) == p_recommend(v@),
{
    match kw_word_choice_at(v, "rec;", CharClass::StickerId, "positive", "negative") {
        Some((a, b, positive, e)) => Some((CallbackData::ToggleRecommendSticker { sticker_id: string_of(v, a, b), positive }, e)),
        None => None,
    }
}

fn alt_favorite(v: &Vec<char>) -> (r: Option<(CallbackData, usize)>)
    ensures
        rv(r) == p_favorite(v@),
{
    match kw_word_choice_at(v, "fav;", CharClass::StickerId, "add", "remove") {
        Some((a, b, add, e)) => {
            let operation = if add { FavoriteAction::Favorite } else { FavoriteAction::Unfavorite };
            Some((CallbackData::FavoriteSticker { sticker_id: string_of(v, a, b), operation }, e))
        },
        None => None,
    }
}

fn alt_merge(v: &Vec<char>) -> (r: Option<(CallbackData, usize)>)
    ensures
        rv(r) == p_merge(v@),
{
    match kw_word_at(v, "merge;", CharClass::StickerId) {
        Some((a, i)) => match kw_at(v, i, ";") {
            Some(j) => match word_at(v, j, CharClass::StickerId) {
                Some(k) => match kw_at(v, k, ";") {
                    Some(l) => match choice2_at(v, l, "true", "false") {
                        Some((merge, e)) => Some((CallbackData::Merge {
                            sticker_id_a: string_of(v, a, i),
                            sticker_id_b: string_of(v, j, k),
                            merge,
                        }, e)),
                        None => None,
                    },
                    None => None,
                },
                None => None,
            },
            None => None,
        },
        None => None,
    }
}

fn alt_any(v: &Vec<char>) -> (r: Option<(CallbackData, usize)>)
    ensures
        rv(r) == p_any(v@),
{
    let r = alt_simple(v);
    if r.is_some() { return r; }
    let r = alt_word(v, "removebl;", CharClass::Tag, 0);
    if r.is_some() { return r; }
    let r = alt_word(v, "removec;", CharClass::Tag, 1);
    if r.is_some() { return r; }
    let r = alt_sticker(v);
    if r.is_some() { return r; }
    let r = alt_change_set(v);
    if r.is_some() { return r; }
    let r = alt_user_info(v);
    if r.is_some() { return r; }
    let r = alt_order(v);
    if r.is_some() { return r; }
    let r = alt_category(v);
    if r.is_some() { return r; }
    let r = alt_word(v, "ras;", CharClass::Tag, 2);
    if r.is_some() { return r; }
    let r = alt_lock(v);
    if r.is_some() { return r; }
    let r = alt_recommend(v);
    if r.is_some() { return r; }
    let r = alt_word(v, "ssp;", CharClass::StickerId, 3);
    if r.is_some() { return r; }
    let r = alt_word(v, "dls;", CharClass::StickerId, 4);
    if r.is_some() { return r; }
    let r = alt_word(v, "sep;", CharClass::StickerId, 5);
    if r.is_some() { return r; }
    let r = alt_word(v, "tex;", CharClass::StickerId, 6);
    if r.is_some() { return r; }
    let r = alt_favorite(v);
    if r.is_some() { return r; }
    let r = alt_merge(v);
    if r.is_some() { return r; }
    alt_word(v, "owner;", CharClass::StickerId, 7)
}

/// Why a button text was refused.
#[derive(Debug, Clone, PartialEq, Eq)]
pub struct CallbackDataError {
    /// The text that was refused.
    pub input: String,
}

impl CallbackDataError {
    /// The message of the error.
    pub fn to_string(&self) -> (r: String)
        ensures
            r@ == "invalid callback data: Parsing Error: "@ + self.input@,
    {
        let mut r = String::new();
        push_str(&mut r, "invalid callback data: Parsing Error: ");
        push_str(&mut r, self.input.as_str());
        r
    }
}

impl TryFrom<String> for CallbackData {
    type Error = CallbackDataError;

    fn try_from(input: String) -> (r: Result<CallbackData, CallbackDataError>)
        ensures
            r matches Ok(d) ==> parse_callback(input@) == Some(d@),
            r matches Err(e) ==> parse_callback(input@) is None && e.input@ == input@,
    {
        CallbackData::parse(input.as_str())
    }
}

impl vstd::std_specs::convert::TryFromSpecImpl<String> for CallbackData {
    open spec fn obeys_try_from_spec() -> bool {
        false
    }

    open spec fn try_from_spec(v: String) -> Result<CallbackData, CallbackDataError> {
        arbitrary()
    }
}

impl CallbackData {
    /// Adds `tag` to the sticker.
    pub fn tag_sticker(sticker_id: &str, tag: &str) -> (d: CallbackData)
        ensures
            d@ == CallbackDataView::Sticker(sticker_id@, Some(TagOperationView::Tag(tag@))),
    {
        CallbackData::Sticker { sticker_id: sticker_id.to_owned(), operation: Some(TagOperation::Tag(tag.to_owned())) }
    }

    /// Removes `tag` from the sticker.
    pub fn untag_sticker(sticker_id: &str, tag: &str) -> (d: CallbackData)
        ensures
            d@ == CallbackDataView::Sticker(sticker_id@, Some(TagOperationView::Untag(tag@))),
    {
        CallbackData::Sticker { sticker_id: sticker_id.to_owned(), operation: Some(TagOperation::Untag(tag.to_owned())) }
    }

    /// Bans or unbans the set.
    pub fn change_set_status(set_name: &str, banned: bool) -> (d: CallbackData)
        ensures
            d@ == CallbackDataView::ChangeSetStatus(set_name@, banned),
    {
        CallbackData::ChangeSetStatus { set_name: set_name.to_owned(), banned }
    }

    /// Shows the user.
    pub fn user_info(user_id: u64) -> (d: CallbackData)
        ensures
            d@ == CallbackDataView::UserInfo(user_id),
    {
        CallbackData::UserInfo(user_id)
    }

    /// Merges or keeps apart the two stickers.
    pub fn merge(sticker_id_a: &str, sticker_id_b: &str, merge: bool) -> (d: CallbackData)
        ensures
            d@ == CallbackDataView::Merge(sticker_id_a@, sticker_id_b@, merge),
    {
        CallbackData::Merge { sticker_id_a: sticker_id_a.to_owned(), sticker_id_b: sticker_id_b.to_owned(), merge }
    }

    /// Reads the action from a button text.
    pub fn parse(input: &str) -> (r: Result<CallbackData, CallbackDataError>)
        ensures
            r matches Ok(d) ==> parse_callback(input@) == Some(d@),
            r matches Err(e) ==> parse_callback(input@) is None && e.input@ == input@,
    {
        let v = to_chars(input);
        match alt_any(&v) {
            Some((d, e)) => {
                if e == v.len() {
                    return Ok(d);
                }
            },
            None => {},
        }
        Err(CallbackDataError { input: crate::chars::string_from(&v) })
    }

    /// The text a button carries for this action.
    pub fn to_string(&self) -> (r: String)
        ensures
            r@ == callback_text(self@),
    {
        let mut out = String::new();
        self.write_to(&mut out);
        assert(Seq::<char>::empty() + callback_text(self@) == callback_text(self@));
        out
    }

    fn write_to(&self, out: &mut String)
        ensures
            final(out)@ == old(out)@ + callback_text(self@),
    {
        let ghost o = old(out)@;
        match self {
            CallbackData::Sticker { sticker_id, operation } => {
                push_str(out, "s;");
                push_str(out, sticker_id.as_str());
                push_str(out, ";");
                match operation {
                    Some(TagOperation::Tag(t)) => {
                        push_str(out, "t;");
                        push_str(out, t.as_str());
                        assert(out@ == o + ("s;"@ + sticker_id@ + ";"@ + ("t;"@ + t@)));
                    },
                    Some(TagOperation::Untag(t)) => {
                        push_str(out, "u;");
                        push_str(out, t.as_str());
                        assert(out@ == o + ("s;"@ + sticker_id@ + ";"@ + ("u;"@ + t@)));
                    },
                    None => {
                        assert(out@ == o + ("s;"@ + sticker_id@ + ";"@ + Seq::<char>::empty()));
                    },
                }
            },
            CallbackData::Help => push_str(out, "help"),
            CallbackData::FeatureOverview => push_str(out, "features"),
            CallbackData::ExitDialog => push_str(out, "exdia"),
            CallbackData::PopularTags => push_str(out, "pop"),
            CallbackData::GeneralStats => push_str(out, "gstats"),
            CallbackData::PersonalStats => push_str(out, "pstats"),
            CallbackData::LatestSets => push_str(out, "lsets"),
            CallbackData::FavoriteSticker { operation, sticker_id } => {
                push_str(out, "fav;");
                push_str(out, sticker_id.as_str());
                push_str(out, ";");
                match operation {
                    FavoriteAction::Favorite => push_str(out, "add"),
                    FavoriteAction::Unfavorite => push_str(out, "remove"),
                }
                assert(out@ == o + callback_text(self@));
            },
            CallbackData::Settings => push_str(out, "settings"),
            CallbackData::Start => push_str(out, "start"),
            CallbackData::Blacklist => push_str(out, "blacklist"),
            CallbackData::NoAction => push_str(out, "noaction"),
            CallbackData::RemoveLinkedUser => push_str(out, "removeuser"),
            CallbackData::LinkSelf => push_str(out, "linkself"),
            CallbackData::CreateTag => push_str(out, "createtag"),
            CallbackData::RemoveLinkedChannel => push_str(out, "removechannel"),
            CallbackData::StickerSetPage { sticker_id } => {
                push_str(out, "ssp;");
                push_str(out, sticker_id.as_str());
                assert(out@ == o + callback_text(self@));
            },
            CallbackData::DownloadSticker { sticker_id } => {
                push_str(out, "dls;");
                push_str(out, sticker_id.as_str());
                assert(out@ == o + callback_text(self@));
            },
            CallbackData::StickerExplorePage { sticker_id } => {
                push_str(out, "sep;");
                push_str(out, sticker_id.as_str());
                assert(out@ == o + callback_text(self@));
            },
            CallbackData::ToggleExampleSticker { sticker_id } => {
                push_str(out, "tex;");
                push_str(out, sticker_id.as_str());
                assert(out@ == o + callback_text(self@));
            },
            CallbackData::OwnerPage { sticker_id } => {
                push_str(out, "owner;");
                push_str(out, sticker_id.as_str());
                assert(out@ == o + callback_text(self@));
            },
            CallbackData::RemoveBlacklistedTag(t) => {
                push_str(out, "removebl;");
                push_str(out, t.as_str());
                assert(out@ == o + callback_text(self@));
            },
            CallbackData::RemoveContinuousTag(t) => {
                push_str(out, "removec;");
                push_str(out, t.as_str());
                assert(out@ == o + callback_text(self@));
            },
            CallbackData::RemoveAlias(t) => {
                push_str(out, "ras;");
                push_str(out, t.as_str());
                assert(out@ == o + callback_text(self@));
            },
            CallbackData::ChangeSetStatus { set_name, banned } => {
                push_str(out, "chset;");
                push_str(out, set_name.as_str());
                push_str(out, ";");
                if *banned { push_str(out, "ban"); } else { push_str(out, "unban"); }
                assert(out@ == o + callback_text(self@));
            },
            CallbackData::Info => push_str(out, "info"),
            CallbackData::UserInfo(user_id) => {
                push_str(out, "userinfo;");
                push_dec(out, *user_id);
                assert(out@ == o + callback_text(self@));
            },
            CallbackData::SetOrder(order) => {
                push_str(out, "order;");
                let t = order_text(*order);
                push_str(out, t.as_str());
                assert(out@ == o + callback_text(self@));
            },
            CallbackData::SetCategory(category) => {
                push_str(out, "cat;");
                match category {
                    Some(c) => push_dec(out, c.to_u8() as u64),
                    None => push_str(out, "none"),
                }
                assert(out@ == o + callback_text(self@));
            },
            CallbackData::SetLock { lock, sticker_id } => {
                push_str(out, "lock;");
                push_str(out, sticker_id.as_str());
                push_str(out, ";");
                if *lock { push_str(out, "lock"); } else { push_str(out, "unlock"); }
                assert(out@ == o + callback_text(self@));
            },
            CallbackData::ToggleRecommendSticker { positive, sticker_id } => {
                push_str(out, "rec;");
                push_str(out, sticker_id.as_str());
                push_str(out, ";");
                if *positive { push_str(out, "positive"); } else { push_str(out, "negative"); }
                assert(out@ == o + callback_text(self@));
            },
            CallbackData::Merge { merge, sticker_id_a, sticker_id_b } => {
                push_str(out, "merge;");
                push_str(out, sticker_id_a.as_str());
                push_str(out, ";");
                push_str(out, sticker_id_b.as_str());
                push_str(out, ";");
                if *merge { push_str(out, "true"); } else { push_str(out, "false"); }
                assert(out@ == o + callback_text(self@));
            },
        }
    }
}

} // verus!
