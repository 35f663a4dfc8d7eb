//! Who may press which button: the checks that the bot makes before it
//! acts on a button press.  Admin-only actions are refused to other users
//! (an admin's user lookup is silently ignored for them); actions that
//! write are answered with a read-only notice while the bot is read-only;
//! tagging needs the user's tagging permission.
use vstd::prelude::*;
use crate::callback_data::{CallbackData, TagOperation};

verus! {

/// The kinds of button press that the bot handles.  Some carry data that
/// the button text format of this library does not hold; they are named
/// here so that their checks can be stated.
#[derive(Debug, Clone, Copy, PartialEq, Eq)]
pub enum CallbackKind {
    ChangeModerationTaskStatus,
    Privacy,
    CreateTag,
    CreateTagForUser,
    RemoveAlias,
    ToggleExampleSticker,
    ApplyTags,
    ToggleRecommendSticker,
    SetLock,
    /// Showing a sticker's tags (`changes_tags` false) or tagging or
    /// untagging it (`changes_tags` true).
    Sticker { changes_tags: bool },
    RemoveBlacklistedTag,
    RemoveContinuousTag,
    ChangeSetBannedStatus,
    NoAction,
    Help,
    Settings,
    LatestSets,
    LatestStickers,
    UserStats,
    PersonalStats,
    GeneralStats,
    PopularTags,
    ExitDialog,
    FeatureOverview,
    DownloadSticker,
    OwnerPage,
    StickerSetPage,
    FavoriteSticker,
    StickerExplorePage,
    Blacklist,
    Start,
    Info,
    UserInfo,
    SetOrder,
    Merge,
    RemoveLinkedUser,
    LinkSelf,
    RemoveLinkedChannel,
    SetCategory,
    TagListAction,
}

/// An action that a user without the permission may not take.
#[derive(Debug, Clone, Copy, PartialEq, Eq)]
pub enum DeniedAction {
    ChangingModerationTaskStatus,
    SetBannedStatus,
    MergeStickers,
    ChangingTags,
    TagSticker,
}

/// What the bot does with a button press before acting on it.
#[derive(Debug, Clone, Copy, PartialEq, Eq)]
pub enum CallbackGuard {
    /// Act on it.
    Proceed,
    /// Refuse it: the user may not take this action.
    NoPermission(DeniedAction),
    /// Refuse it without an answer to the user (changing a sticker's lock
    /// without the tagging permission).
    Forbidden,
    /// Do nothing.
    Ignore,
    /// Tell the user that the bot is read-only, and do nothing else.
    ReadOnlyNotice,
}

/// The kind of a button press.
pub open spec fn kind_of(d: CallbackData) -> CallbackKind {
    match d {
        CallbackData::NoAction => CallbackKind::NoAction,
        CallbackData::RemoveLinkedChannel => CallbackKind::RemoveLinkedChannel,
        CallbackData::RemoveLinkedUser => CallbackKind::RemoveLinkedUser,
        CallbackData::LinkSelf => CallbackKind::LinkSelf,
        CallbackData::CreateTag => CallbackKind::CreateTag,
        CallbackData::Help => CallbackKind::Help,
        CallbackData::Start => CallbackKind::Start,
        CallbackData::Settings => CallbackKind::Settings,
        CallbackData::Blacklist => CallbackKind::Blacklist,
        CallbackData::FeatureOverview => CallbackKind::FeatureOverview,
        CallbackData::ExitDialog => CallbackKind::ExitDialog,
        CallbackData::PopularTags => CallbackKind::PopularTags,
        CallbackData::GeneralStats => CallbackKind::GeneralStats,
        CallbackData::PersonalStats => CallbackKind::PersonalStats,
        CallbackData::LatestSets => CallbackKind::LatestSets,
        CallbackData::Info => CallbackKind::Info,
        CallbackData::RemoveBlacklistedTag(_) => CallbackKind::RemoveBlacklistedTag,
        CallbackData::RemoveContinuousTag(_) => CallbackKind::RemoveContinuousTag,
        CallbackData::RemoveAlias(_) => CallbackKind::RemoveAlias,
        CallbackData::UserInfo(_) => CallbackKind::UserInfo,
        CallbackData::SetOrder(_) => CallbackKind::SetOrder,
        CallbackData::SetCategory(_) => CallbackKind::SetCategory,
        CallbackData::StickerSetPage { .. } => CallbackKind::StickerSetPage,
        CallbackData::DownloadSticker { .. } => CallbackKind::DownloadSticker,
        CallbackData::StickerExplorePage { .. } => CallbackKind::StickerExplorePage,
        CallbackData::ToggleExampleSticker { .. } => CallbackKind::ToggleExampleSticker,
        CallbackData::Sticker { operation, .. } => CallbackKind::Sticker { changes_tags: operation is Some },
        CallbackData::FavoriteSticker { .. } => CallbackKind::FavoriteSticker,
        CallbackData::SetLock { .. } => CallbackKind::SetLock,
        CallbackData::ToggleRecommendSticker { .. } => CallbackKind::ToggleRecommendSticker,
        CallbackData::ChangeSetStatus { .. } => CallbackKind::ChangeSetBannedStatus,
        CallbackData::Merge { .. } => CallbackKind::Merge,
        CallbackData::OwnerPage { .. } => CallbackKind::OwnerPage,
    }
}

/// The kinds that only the admin may use, with the action that a refusal names.
pub open spec fn admin_only(k: CallbackKind) -> Option<DeniedAction> {
    match k {
        CallbackKind::ChangeModerationTaskStatus => Some(DeniedAction::ChangingModerationTaskStatus),
        CallbackKind::ChangeSetBannedStatus => Some(DeniedAction::SetBannedStatus),
        CallbackKind::Merge => Some(DeniedAction::MergeStickers),
        CallbackKind::TagListAction => Some(DeniedAction::ChangingTags),
        _ => None,
    }
}

/// The kinds that write and are therefore refused while the bot is read-only.
pub open spec fn writes(k: CallbackKind) -> bool {
    match k {
        CallbackKind::CreateTag | CallbackKind::CreateTagForUser | CallbackKind::RemoveAlias
        | CallbackKind::ToggleExampleSticker | CallbackKind::ApplyTags | CallbackKind::SetLock
        | CallbackKind::RemoveContinuousTag | CallbackKind::RemoveLinkedUser | CallbackKind::LinkSelf
        | CallbackKind::RemoveLinkedChannel | CallbackKind::SetCategory => true,
        CallbackKind::Sticker { changes_tags } => changes_tags,
        _ => false,
    }
}

/// The check of a button press: the admin's lookup of a user is ignored
/// for others; other admin-only actions are refused to others; tagging and
/// showing a sticker's tags need the tagging permission; writing while
/// read-only gets the notice; changing a sticker's lock needs the tagging
/// permission too (checked after the read-only notice).
pub open spec fn guard_of(k: CallbackKind, is_admin: bool, can_tag_stickers: bool, is_readonly: bool) -> CallbackGuard {
    if k == CallbackKind::UserInfo && !is_admin {
        CallbackGuard::Ignore
    } else if admin_only(k) is Some && !is_admin {
        CallbackGuard::NoPermission(admin_only(k)->0)
    } else if k is Sticker && !can_tag_stickers {
        CallbackGuard::NoPermission(DeniedAction::TagSticker)
    } else if writes(k) && is_readonly {
        CallbackGuard::ReadOnlyNotice
    } else if k == CallbackKind::SetLock && !can_tag_stickers {
        CallbackGuard::Forbidden
    } else {
        CallbackGuard::Proceed
    }
}

/// The kind of a button press.
pub fn callback_kind(data: &CallbackData) -> (k: CallbackKind)
    ensures
        k == kind_of(*data),
{
    match data {
        CallbackData::NoAction => CallbackKind::NoAction,
        CallbackData::RemoveLinkedChannel => CallbackKind::RemoveLinkedChannel,
        CallbackData::RemoveLinkedUser => CallbackKind::RemoveLinkedUser,
        CallbackData::LinkSelf => CallbackKind::LinkSelf,
        CallbackData::CreateTag => CallbackKind::CreateTag,
        CallbackData::Help => CallbackKind::Help,
        CallbackData::Start => CallbackKind::Start,
        CallbackData::Settings => CallbackKind::Settings,
        CallbackData::Blacklist => CallbackKind::Blacklist,
        CallbackData::FeatureOverview => CallbackKind::FeatureOverview,
        CallbackData::ExitDialog => CallbackKind::ExitDialog,
        CallbackData::PopularTags => CallbackKind::PopularTags,
        CallbackData::GeneralStats => CallbackKind::GeneralStats,
        CallbackData::PersonalStats => CallbackKind::PersonalStats,
        CallbackData::LatestSets => CallbackKind::LatestSets,
        CallbackData::Info => CallbackKind::Info,
        CallbackData::RemoveBlacklistedTag(_) => CallbackKind::RemoveBlacklistedTag,
        CallbackData::RemoveContinuousTag(_) => CallbackKind::RemoveContinuousTag,
        CallbackData::RemoveAlias(_) => CallbackKind::RemoveAlias,
        CallbackData::UserInfo(_) => CallbackKind::UserInfo,
        CallbackData::SetOrder(_) => CallbackKind::SetOrder,
        CallbackData::SetCategory(_) => CallbackKind::SetCategory,
        CallbackData::StickerSetPage { .. } => CallbackKind::StickerSetPage,
        CallbackData::DownloadSticker { .. } => CallbackKind::DownloadSticker,
        CallbackData::StickerExplorePage { .. } => CallbackKind::StickerExplorePage,
        CallbackData::ToggleExampleSticker { .. } => CallbackKind::ToggleExampleSticker,
        CallbackData::Sticker { operation, .. } => CallbackKind::Sticker { changes_tags: operation.is_some() },
        CallbackData::FavoriteSticker { .. } => CallbackKind::FavoriteSticker,
        CallbackData::SetLock { .. } => CallbackKind::SetLock,
        CallbackData::ToggleRecommendSticker { .. } => CallbackKind::ToggleRecommendSticker,
        CallbackData::ChangeSetStatus { .. } => CallbackKind::ChangeSetBannedStatus,
        CallbackData::Merge { .. } => CallbackKind::Merge,
        CallbackData::OwnerPage { .. } => CallbackKind::OwnerPage,
    }
}

/// The check of a button press of the given kind.
pub fn callback_kind_guard(kind: CallbackKind, is_admin: bool, can_tag_stickers: bool, is_readonly: bool) -> (r: CallbackGuard)
    ensures
        r == guard_of(kind, is_admin, can_tag_stickers, is_readonly),
{
    let admin_action = match kind {
        CallbackKind::ChangeModerationTaskStatus => Some(DeniedAction::ChangingModerationTaskStatus),
        CallbackKind::ChangeSetBannedStatus => Some(DeniedAction::SetBannedStatus),
        CallbackKind::Merge => Some(DeniedAction::MergeStickers),
        CallbackKind::TagListAction => Some(DeniedAction::ChangingTags),
        _ => None,
    };
    let is_user_info = match kind { CallbackKind::UserInfo => true, _ => false };
    let is_sticker = match kind { CallbackKind::Sticker { .. } => true, _ => false };
    let is_lock = match kind { CallbackKind::SetLock => true, _ => false };
    let writing = match kind {
        CallbackKind::CreateTag | CallbackKind::CreateTagForUser | CallbackKind::RemoveAlias
        | CallbackKind::ToggleExampleSticker | CallbackKind::ApplyTags | CallbackKind::SetLock
        | CallbackKind::RemoveContinuousTag | CallbackKind::RemoveLinkedUser | CallbackKind::LinkSelf
        | CallbackKind::RemoveLinkedChannel | CallbackKind::SetCategory => true,
        CallbackKind::Sticker { changes_tags } => changes_tags,
        _ => false,
    };
    if is_user_info && !is_admin {
        CallbackGuard::Ignore
    } else if admin_action.is_some() && !is_admin {
        CallbackGuard::NoPermission(admin_action.unwrap())
    } else if is_sticker && !can_tag_stickers {
        CallbackGuard::NoPermission(DeniedAction::TagSticker)
    } else if writing && is_readonly {
        CallbackGuard::ReadOnlyNotice
    } else if is_lock && !can_tag_stickers {
        CallbackGuard::Forbidden
    } else {
        CallbackGuard::Proceed
    }
}

/// The check of a button press.
pub fn callback_guard(data: &CallbackData, is_admin: bool, can_tag_stickers: bool, is_readonly: bool) -> (r: CallbackGuard)
    ensures
        r == guard_of(kind_of(*data), is_admin, can_tag_stickers, is_readonly),
{
    callback_kind_guard(callback_kind(data), is_admin, can_tag_stickers, is_readonly)
}

impl DeniedAction {
    /// How a refusal names the action.
    pub fn text(&self) -> (r: &'static str)
        ensures
            r@ == (match *self {
                DeniedAction::ChangingModerationTaskStatus => "changing moderation task status"@,
                DeniedAction::SetBannedStatus => "set banned status"@,
                DeniedAction::MergeStickers => "merge stickers"@,
                DeniedAction::ChangingTags => "changing tags"@,
                DeniedAction::TagSticker => "tag sticker"@,
            }),
    {
        match self {
            DeniedAction::ChangingModerationTaskStatus => "changing moderation task status",
            DeniedAction::SetBannedStatus => "set banned status",
            DeniedAction::MergeStickers => "merge stickers",
            DeniedAction::ChangingTags => "changing tags",
            DeniedAction::TagSticker => "tag sticker",
        }
    }
}

/// Only the admin passes the admin-only checks, and nothing that writes
/// gets past a read-only bot.
pub proof fn lemma_guard(k: CallbackKind, is_admin: bool, can_tag_stickers: bool, is_readonly: bool)
    ensures
        (admin_only(k) is Some || k == CallbackKind::UserInfo) && !is_admin ==> guard_of(k, is_admin, can_tag_stickers, is_readonly) != CallbackGuard::Proceed,
        writes(k) && is_readonly ==> guard_of(k, is_admin, can_tag_stickers, is_readonly) != CallbackGuard::Proceed,
        !writes(k) && admin_only(k) is None && k != CallbackKind::UserInfo && !(k is Sticker) && k != CallbackKind::SetLock
            ==> guard_of(k, is_admin, can_tag_stickers, is_readonly) == CallbackGuard::Proceed,
{
}

/// Button presses by their data: merging, banning a set and changing a
/// moderation task or the tag list are refused to everyone but the admin,
/// naming the action; the admin's user lookup is silently ignored for
/// others; the buttons that change the tag creator, the continuous tag
/// mode, links, a sticker's lock or its tags only bring the read-only
/// notice while the bot is read-only; tagging needs the permission to tag.
pub proof fn lemma_guard_by_button(is_admin: bool, can_tag_stickers: bool, is_readonly: bool, id: String, name: String, b: bool, u: u64)
    ensures
        !is_admin ==> guard_of(kind_of(CallbackData::Merge { sticker_id_a: id, sticker_id_b: name, merge: b }), is_admin, can_tag_stickers, is_readonly)
            == CallbackGuard::NoPermission(DeniedAction::MergeStickers),
        !is_admin ==> guard_of(kind_of(CallbackData::ChangeSetStatus { set_name: name, banned: b }), is_admin, can_tag_stickers, is_readonly)
            == CallbackGuard::NoPermission(DeniedAction::SetBannedStatus),
        !is_admin ==> guard_of(CallbackKind::ChangeModerationTaskStatus, is_admin, can_tag_stickers, is_readonly)
            == CallbackGuard::NoPermission(DeniedAction::ChangingModerationTaskStatus),
        !is_admin ==> guard_of(CallbackKind::TagListAction, is_admin, can_tag_stickers, is_readonly)
            == CallbackGuard::NoPermission(DeniedAction::ChangingTags),
        !is_admin ==> guard_of(kind_of(CallbackData::UserInfo(u)), is_admin, can_tag_stickers, is_readonly) == CallbackGuard::Ignore,
        is_admin && !is_readonly ==> guard_of(kind_of(CallbackData::Merge { sticker_id_a: id, sticker_id_b: name, merge: b }), is_admin, can_tag_stickers, is_readonly) == CallbackGuard::Proceed,
        is_admin ==> guard_of(kind_of(CallbackData::UserInfo(u)), is_admin, can_tag_stickers, is_readonly) == CallbackGuard::Proceed,
        is_readonly ==> guard_of(kind_of(CallbackData::CreateTag), is_admin, can_tag_stickers, is_readonly) == CallbackGuard::ReadOnlyNotice,
        is_readonly ==> guard_of(CallbackKind::CreateTagForUser, is_admin, can_tag_stickers, is_readonly) == CallbackGuard::ReadOnlyNotice,
        is_readonly ==> guard_of(CallbackKind::ApplyTags, is_admin, can_tag_stickers, is_readonly) == CallbackGuard::ReadOnlyNotice,
        is_readonly ==> guard_of(kind_of(CallbackData::RemoveAlias(name)), is_admin, can_tag_stickers, is_readonly) == CallbackGuard::ReadOnlyNotice,
        is_readonly ==> guard_of(kind_of(CallbackData::ToggleExampleSticker { sticker_id: id }), is_admin, can_tag_stickers, is_readonly) == CallbackGuard::ReadOnlyNotice,
        is_readonly ==> guard_of(kind_of(CallbackData::SetLock { sticker_id: id, lock: b }), is_admin, can_tag_stickers, is_readonly) == CallbackGuard::ReadOnlyNotice,
        is_readonly ==> guard_of(kind_of(CallbackData::RemoveContinuousTag(name)), is_admin, can_tag_stickers, is_readonly) == CallbackGuard::ReadOnlyNotice,
        is_readonly ==> guard_of(kind_of(CallbackData::RemoveLinkedUser), is_admin, can_tag_stickers, is_readonly) == CallbackGuard::ReadOnlyNotice,
        is_readonly ==> guard_of(kind_of(CallbackData::LinkSelf), is_admin, can_tag_stickers, is_readonly) == CallbackGuard::ReadOnlyNotice,
        is_readonly ==> guard_of(kind_of(CallbackData::RemoveLinkedChannel), is_admin, can_tag_stickers, is_readonly) == CallbackGuard::ReadOnlyNotice,
        is_readonly ==> guard_of(kind_of(CallbackData::SetCategory(None)), is_admin, can_tag_stickers, is_readonly) == CallbackGuard::ReadOnlyNotice,
        !can_tag_stickers ==> guard_of(kind_of(CallbackData::Sticker { sticker_id: id, operation: Some(TagOperation::Tag(name)) }), is_admin, can_tag_stickers, is_readonly)
            == CallbackGuard::NoPermission(DeniedAction::TagSticker),
        can_tag_stickers && is_readonly ==> guard_of(kind_of(CallbackData::Sticker { sticker_id: id, operation: Some(TagOperation::Untag(name)) }), is_admin, can_tag_stickers, is_readonly)
            == CallbackGuard::ReadOnlyNotice,
        can_tag_stickers ==> guard_of(kind_of(CallbackData::Sticker { sticker_id: id, operation: None }), is_admin, can_tag_stickers, is_readonly) == CallbackGuard::Proceed,
        !is_readonly && !can_tag_stickers ==> guard_of(kind_of(CallbackData::SetLock { sticker_id: id, lock: b }), is_admin, can_tag_stickers, is_readonly) == CallbackGuard::Forbidden,
        guard_of(kind_of(CallbackData::Help), is_admin, can_tag_stickers, is_readonly) == CallbackGuard::Proceed,
        guard_of(kind_of(CallbackData::RemoveBlacklistedTag(name)), is_admin, can_tag_stickers, is_readonly) == CallbackGuard::Proceed,
        guard_of(kind_of(CallbackData::ToggleRecommendSticker { sticker_id: id, positive: b }), is_admin, can_tag_stickers, is_readonly) == CallbackGuard::Proceed,
        guard_of(kind_of(CallbackData::OwnerPage { sticker_id: id }), is_admin, can_tag_stickers, is_readonly) == CallbackGuard::Proceed,
{
}

} // verus!
