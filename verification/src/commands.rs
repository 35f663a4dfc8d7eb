//! The decisions of the bot's commands: from the command, the user's
//! dialog state and the bot's settings to what the bot does next.  Talking
//! to Telegram and to the database is the caller's work.
use vstd::prelude::*;
use crate::command::StartParameter;
use crate::hidden::TagList;
use crate::inline_data::{SetOperation, TagKind};
use crate::model::Category;

verus! {

/// What the tag creator has collected so far.
#[derive(Debug, Clone, PartialEq, Eq)]
pub struct TagCreator {
    pub tag_id: String,
    /// The linked channel: its chat id and name.
    pub linked_channel: Option<(i64, String)>,
    /// The linked user: their id and name.
    pub linked_user: Option<(u64, String)>,
    pub category: Option<Category>,
    pub example_sticker_id: Vec<String>,
    pub aliases: Vec<String>,
}

/// The dialog that a user is in.
#[derive(Debug, Clone, PartialEq, Eq)]
pub enum DialogState {
    Normal,
    ContinuousTag { add_tags: Vec<String>, remove_tags: Vec<String> },
    StickerRecommender { positive_sticker_id: Vec<String>, negative_sticker_id: Vec<String> },
    TagCreator(TagCreator),
}

/// The state that the recommender command starts, if it must start one:
/// a user already in the recommender keeps their marks; anyone else starts
/// with no marks.
pub fn recommender_mode_start(current: &DialogState) -> (r: Option<DialogState>)
    ensures
        current is StickerRecommender ==> r is None,
        !(current is StickerRecommender) ==> (r matches Some(DialogState::StickerRecommender { positive_sticker_id, negative_sticker_id })
            && positive_sticker_id@.len() == 0 && negative_sticker_id@.len() == 0),
{
    match current {
        DialogState::StickerRecommender { .. } => None,
        _ => Some(DialogState::StickerRecommender { positive_sticker_id: Vec::new(), negative_sticker_id: Vec::new() }),
    }
}

/// Leaving the current dialog: whether the state must be set back to
/// normal, and the message that tells the user (a user already in the
/// normal state hears only where `notify_if_normal` asks for it).
pub open spec fn exit_mode_spec(current: DialogState, notify_if_normal: bool) -> (bool, Option<Seq<char>>) {
    if current is Normal {
        (false, if notify_if_normal { Some("I wasn't doing anything"@) } else { None })
    } else {
        (true, Some("Back in normal mode"@))
    }
}

/// Leaving the current dialog (see `exit_mode_spec`).
pub fn exit_mode(current: &DialogState, notify_if_normal: bool) -> (r: (bool, Option<&'static str>))
    ensures
        r.0 == exit_mode_spec(*current, notify_if_normal).0,
        (match r.1 { Some(t) => Some(t@), None => None }) == exit_mode_spec(*current, notify_if_normal).1,
{
    match current {
        DialogState::Normal => (false, if notify_if_normal { Some("I wasn't doing anything") } else { None }),
        _ => (true, Some("Back in normal mode")),
    }
}

/// The commands that the bot's own buttons and inline results send.
#[derive(Debug, Clone, PartialEq, Eq)]
pub enum HiddenCommand {
    TagSticker { sticker_unique_id: String, tag: TagList },
    BlacklistTag { tag: String },
    TagSet { set_name: String, tag: TagList },
    UntagSet { set_name: String, tag: TagList },
    TagContinuous { tag: TagList },
    UntagContinuous { tag: TagList },
    Cancel,
    Random,
    AutoSuggest,
    SetTag { kind: TagKind, tag_id: String },
    CreateSet { sticker_id: String, set_title: String },
    AddSticker { set_id: String, sticker_id: String },
    RemoveSticker { set_id: String, sticker_id: String },
    User { user_id: i64 },
    ReportSet { reason: i64, set_id: String },
}

/// What the bot does for a hidden command.
#[derive(Debug, Clone, PartialEq, Eq)]
pub enum HiddenAction {
    /// Tell the user that the bot is read-only.
    ReadOnlyNotice,
    /// Refuse: the user may not tag stickers.
    NotPermitted,
    /// Refuse: the command does not fit the current dialog.
    InvalidMode,
    /// Tag the sticker with the tags and their implications, and show its tags.
    TagSticker { sticker_unique_id: String, tags: Vec<String> },
    /// Put the tag on the user's blacklist (see `blacklist_with_tag`).
    BlacklistTag { tag: String },
    /// Tag or untag every sticker of the set.
    TagSet { set_name: String, tags: Vec<String>, operation: SetOperation },
    /// Add the tags to the continuous tag mode's tags to add (`Tag`) or to
    /// remove (`Untag`) (see `continuous_tag_lists`).
    ModifyContinuousTag { tags: Vec<String>, operation: SetOperation },
    /// Give the tag creator a main id or an alias (see `tag_creator_with_id`).
    SetTagId { kind: TagKind, tag_id: String },
    /// Leave the current dialog (see `exit_mode`), telling a user who is in none.
    ExitMode,
    /// Show a random sticker to tag, leaving the continuous tag mode first where the user is in it.
    RandomSticker { leave_continuous_tag_mode: bool },
    /// Suggest a sticker to tag in the continuous tag mode.
    SuggestForContinuousTag,
    /// Suggest a sticker in the recommender.
    SuggestForRecommender,
    CreateSet { sticker_id: String, set_title: String },
    AddSticker { set_id: String, sticker_id: String },
    RemoveSticker { set_id: String, sticker_id: String },
    ShowUser { user_id: i64 },
    ReportSet { reason: i64, set_id: String },
}

/// The action for a hidden command.  Commands that write (reporting a
/// set, tagging a sticker or a set, the continuous tag mode's commands,
/// setting a tag id) only get the read-only notice while the bot is
/// read-only; tagging a sticker then needs the tagging permission.
/// Suggestions need the continuous tag mode or the recommender.
pub open spec fn hidden_action_of(cmd: HiddenCommand, can_tag_stickers: bool, is_readonly: bool, state: DialogState) -> HiddenAction {
    match cmd {
        HiddenCommand::ReportSet { reason, set_id } =>
            if is_readonly { HiddenAction::ReadOnlyNotice } else { HiddenAction::ReportSet { reason, set_id } },
        HiddenCommand::User { user_id } => HiddenAction::ShowUser { user_id },
        HiddenCommand::RemoveSticker { set_id, sticker_id } => HiddenAction::RemoveSticker { set_id, sticker_id },
        HiddenCommand::AddSticker { set_id, sticker_id } => HiddenAction::AddSticker { set_id, sticker_id },
        HiddenCommand::CreateSet { sticker_id, set_title } => HiddenAction::CreateSet { sticker_id, set_title },
        HiddenCommand::Random => HiddenAction::RandomSticker { leave_continuous_tag_mode: state is ContinuousTag },
        HiddenCommand::AutoSuggest =>
            if state is ContinuousTag { HiddenAction::SuggestForContinuousTag }
            else if state is StickerRecommender { HiddenAction::SuggestForRecommender }
            else { HiddenAction::InvalidMode },
        HiddenCommand::TagSticker { sticker_unique_id, tag } =>
            if is_readonly { HiddenAction::ReadOnlyNotice }
            else if !can_tag_stickers { HiddenAction::NotPermitted }
            else { HiddenAction::TagSticker { sticker_unique_id, tags: tag.0 } },
        HiddenCommand::BlacklistTag { tag } => HiddenAction::BlacklistTag { tag },
        HiddenCommand::TagSet { set_name, tag } =>
            if is_readonly { HiddenAction::ReadOnlyNotice } else { HiddenAction::TagSet { set_name, tags: tag.0, operation: SetOperation::Tag } },
        HiddenCommand::UntagSet { set_name, tag } =>
            if is_readonly { HiddenAction::ReadOnlyNotice } else { HiddenAction::TagSet { set_name, tags: tag.0, operation: SetOperation::Untag } },
        HiddenCommand::TagContinuous { tag } =>
            if is_readonly { HiddenAction::ReadOnlyNotice } else { HiddenAction::ModifyContinuousTag { tags: tag.0, operation: SetOperation::Tag } },
        HiddenCommand::UntagContinuous { tag } =>
            if is_readonly { HiddenAction::ReadOnlyNotice } else { HiddenAction::ModifyContinuousTag { tags: tag.0, operation: SetOperation::Untag } },
        HiddenCommand::SetTag { kind, tag_id } =>
            if is_readonly { HiddenAction::ReadOnlyNotice } else { HiddenAction::SetTagId { kind, tag_id } },
        HiddenCommand::Cancel => HiddenAction::ExitMode,
    }
}

/// The action for a hidden command (see `hidden_action_of`).
pub fn hidden_command_action(cmd: HiddenCommand, can_tag_stickers: bool, is_readonly: bool, state: &DialogState) -> (r: HiddenAction)
    ensures
        r == hidden_action_of(cmd, can_tag_stickers, is_readonly, *state),
{
    let in_continuous = match state { DialogState::ContinuousTag { .. } => true, _ => false };
    let in_recommender = match state { DialogState::StickerRecommender { .. } => true, _ => false };
    match cmd {
        HiddenCommand::ReportSet { reason, set_id } =>
            if is_readonly { HiddenAction::ReadOnlyNotice } else { HiddenAction::ReportSet { reason, set_id } },
        HiddenCommand::User { user_id } => HiddenAction::ShowUser { user_id },
        HiddenCommand::RemoveSticker { set_id, sticker_id } => HiddenAction::RemoveSticker { set_id, sticker_id },
        HiddenCommand::AddSticker { set_id, sticker_id } => HiddenAction::AddSticker { set_id, sticker_id },
        HiddenCommand::CreateSet { sticker_id, set_title } => HiddenAction::CreateSet { sticker_id, set_title },
        HiddenCommand::Random => HiddenAction::RandomSticker { leave_continuous_tag_mode: in_continuous },
        HiddenCommand::AutoSuggest =>
            if in_continuous { HiddenAction::SuggestForContinuousTag }
            else if in_recommender { HiddenAction::SuggestForRecommender }
            else { HiddenAction::InvalidMode },
        HiddenCommand::TagSticker { sticker_unique_id, tag } =>
            if is_readonly { HiddenAction::ReadOnlyNotice }
            else if !can_tag_stickers { HiddenAction::NotPermitted }
            else { HiddenAction::TagSticker { sticker_unique_id, tags: tag.0 } },
        HiddenCommand::BlacklistTag { tag } => HiddenAction::BlacklistTag { tag },
        HiddenCommand::TagSet { set_name, tag } =>
            if is_readonly { HiddenAction::ReadOnlyNotice } else { HiddenAction::TagSet { set_name, tags: tag.0, operation: SetOperation::Tag } },
        HiddenCommand::UntagSet { set_name, tag } =>
            if is_readonly { HiddenAction::ReadOnlyNotice } else { HiddenAction::TagSet { set_name, tags: tag.0, operation: SetOperation::Untag } },
        HiddenCommand::TagContinuous { tag } =>
            if is_readonly { HiddenAction::ReadOnlyNotice } else { HiddenAction::ModifyContinuousTag { tags: tag.0, operation: SetOperation::Tag } },
        HiddenCommand::UntagContinuous { tag } =>
            if is_readonly { HiddenAction::ReadOnlyNotice } else { HiddenAction::ModifyContinuousTag { tags: tag.0, operation: SetOperation::Untag } },
        HiddenCommand::SetTag { kind, tag_id } =>
            if is_readonly { HiddenAction::ReadOnlyNotice } else { HiddenAction::SetTagId { kind, tag_id } },
        HiddenCommand::Cancel => HiddenAction::ExitMode,
    }
}

/// The commands that a user can type.
#[derive(Debug, Clone, Copy, PartialEq, Eq)]
pub enum RegularCommand {
    Settings,
    TagMe,
    ContinuousTagMode,
    StickerRecommenderMode,
    TagCreator,
    Stats,
    ClearRecentlyUsed,
    Start { start_parameter: StartParameter },
    Help,
    Privacy,
}

/// What the bot shows for a command that a user typed.
#[derive(Debug, Clone, Copy, PartialEq, Eq)]
pub enum RegularAction {
    ShowSettings,
    /// A random sticker that needs tags.
    ShowStickerToTag,
    /// The start of the continuous tag mode: choose a tag.
    ChooseContinuousTag,
    /// The continuous tag mode's current lists.
    ShowContinuousTag,
    /// The start of the tag creator: name the tag.
    NameNewTag,
    /// The tag creator's current state.
    ShowTagCreator,
    /// The recommender with its marks.
    ShowRecommender,
    ShowStats,
    ClearRecentlyUsed,
    ShowBlacklist,
    /// The greeting sticker, the start text and the main menu.
    Greet,
    ShowHelp,
    ShowPrivacy,
}


/// The list of the commands that a user can type: a heading, an empty
/// line, and one line per command, `/name — description`.
pub fn user_command_description() -> (r: String)
    ensures
        r@ == "Supported commands\n\n/settings — show settings\n/tagme — get a random sticker that needs tagging\n/continuoustagmode — tag multiple stickers with the same tag\n/stickerrecommendermode — get sticker recommendations\n/tagcreator — add your own character or artist tags\n/stats — general statistics\n/clearrecentlyused — clear recently used stickers\n/start — show welcome message\n/help — display help text\n/privacy — show privacy information"@,
{
    "Supported commands\n\n/settings — show settings\n/tagme — get a random sticker that needs tagging\n/continuoustagmode — tag multiple stickers with the same tag\n/stickerrecommendermode — get sticker recommendations\n/tagcreator — add your own character or artist tags\n/stats — general statistics\n/clearrecentlyused — clear recently used stickers\n/start — show welcome message\n/help — display help text\n/privacy — show privacy information".to_owned()
}

/// The list of the admin's commands, written as `user_command_description`.
pub fn admin_command_description() -> (r: String)
    ensures
        r@ == "Admin commands\n\n/banset — ADMIN ban a set (set name is case sensitive)\n/exportjson — ADMIN export json\n/tasks — ADMIN get pending moderation tasks\n/ui — ADMIN ui\n/mergequeue — ADMIN merge queue"@,
{
    "Admin commands\n\n/banset — ADMIN ban a set (set name is case sensitive)\n/exportjson — ADMIN export json\n/tasks — ADMIN get pending moderation tasks\n/ui — ADMIN ui\n/mergequeue — ADMIN merge queue".to_owned()
}

/// The action for a typed command, and whether the bot first leaves the
/// current dialog (see `exit_mode`): the start command and the request for
/// a sticker to tag do; the mode commands show the mode that the user is in
/// or its start.
pub open spec fn regular_action_of(cmd: RegularCommand, state: DialogState) -> (bool, RegularAction) {
    match cmd {
        RegularCommand::Start { start_parameter } => (true, match start_parameter {
            StartParameter::Blacklist => RegularAction::ShowBlacklist,
            StartParameter::Regular | StartParameter::Greeting => RegularAction::Greet,
            StartParameter::Help => RegularAction::ShowHelp,
        }),
        RegularCommand::TagMe => (true, RegularAction::ShowStickerToTag),
        RegularCommand::Settings => (false, RegularAction::ShowSettings),
        RegularCommand::Stats => (false, RegularAction::ShowStats),
        RegularCommand::ContinuousTagMode =>
            (false, if state is ContinuousTag { RegularAction::ShowContinuousTag } else { RegularAction::ChooseContinuousTag }),
        RegularCommand::TagCreator =>
            (false, if state is TagCreator { RegularAction::ShowTagCreator } else { RegularAction::NameNewTag }),
        RegularCommand::StickerRecommenderMode => (false, RegularAction::ShowRecommender),
        RegularCommand::ClearRecentlyUsed => (false, RegularAction::ClearRecentlyUsed),
        RegularCommand::Help => (false, RegularAction::ShowHelp),
        RegularCommand::Privacy => (false, RegularAction::ShowPrivacy),
    }
}

/// The action for a typed command (see `regular_action_of`); the
/// recommender command's new state comes from `recommender_mode_start`.
pub fn regular_command_action(cmd: RegularCommand, state: &DialogState) -> (r: (bool, RegularAction))
    ensures
        r == regular_action_of(cmd, *state),
{
    match cmd {
        RegularCommand::Start { start_parameter } => (true, match start_parameter {
            StartParameter::Blacklist => RegularAction::ShowBlacklist,
            StartParameter::Regular | StartParameter::Greeting => RegularAction::Greet,
            StartParameter::Help => RegularAction::ShowHelp,
        }),
        RegularCommand::TagMe => (true, RegularAction::ShowStickerToTag),
        RegularCommand::Settings => (false, RegularAction::ShowSettings),
        RegularCommand::Stats => (false, RegularAction::ShowStats),
        RegularCommand::ContinuousTagMode => (false, match state {
            DialogState::ContinuousTag { .. } => RegularAction::ShowContinuousTag,
            _ => RegularAction::ChooseContinuousTag,
        }),
        RegularCommand::TagCreator => (false, match state {
            DialogState::TagCreator(_) => RegularAction::ShowTagCreator,
            _ => RegularAction::NameNewTag,
        }),
        RegularCommand::StickerRecommenderMode => (false, RegularAction::ShowRecommender),
        RegularCommand::ClearRecentlyUsed => (false, RegularAction::ClearRecentlyUsed),
        RegularCommand::Help => (false, RegularAction::ShowHelp),
        RegularCommand::Privacy => (false, RegularAction::ShowPrivacy),
    }
}

/// While the bot is read-only no hidden command that writes gets through,
/// and tagging a sticker needs the tagging permission.
pub proof fn lemma_hidden_guards(cmd: HiddenCommand, can_tag_stickers: bool, is_readonly: bool, state: DialogState)
    ensures
        is_readonly && (cmd is ReportSet || cmd is TagSticker || cmd is TagSet || cmd is UntagSet
            || cmd is TagContinuous || cmd is UntagContinuous || cmd is SetTag)
            ==> hidden_action_of(cmd, can_tag_stickers, is_readonly, state) == HiddenAction::ReadOnlyNotice,
        hidden_action_of(cmd, can_tag_stickers, is_readonly, state) is TagSticker ==> can_tag_stickers && !is_readonly,
{
}

/// The set commands differ only in their operation: tagging a set tags
/// its stickers and untagging it untags them, with the set and the tags of
/// the command; while read-only neither acts.
pub proof fn lemma_set_commands(set_name: String, tag: TagList, can_tag_stickers: bool, is_readonly: bool, state: DialogState)
    ensures
        !is_readonly ==> hidden_action_of(HiddenCommand::TagSet { set_name, tag }, can_tag_stickers, is_readonly, state)
            == (HiddenAction::TagSet { set_name, tags: tag.0, operation: SetOperation::Tag }),
        !is_readonly ==> hidden_action_of(HiddenCommand::UntagSet { set_name, tag }, can_tag_stickers, is_readonly, state)
            == (HiddenAction::TagSet { set_name, tags: tag.0, operation: SetOperation::Untag }),
        !is_readonly ==> hidden_action_of(HiddenCommand::TagContinuous { tag }, can_tag_stickers, is_readonly, state)
            == (HiddenAction::ModifyContinuousTag { tags: tag.0, operation: SetOperation::Tag }),
        !is_readonly ==> hidden_action_of(HiddenCommand::UntagContinuous { tag }, can_tag_stickers, is_readonly, state)
            == (HiddenAction::ModifyContinuousTag { tags: tag.0, operation: SetOperation::Untag }),
        is_readonly ==> hidden_action_of(HiddenCommand::TagSet { set_name, tag }, can_tag_stickers, is_readonly, state) == HiddenAction::ReadOnlyNotice
            && hidden_action_of(HiddenCommand::UntagSet { set_name, tag }, can_tag_stickers, is_readonly, state) == HiddenAction::ReadOnlyNotice,
{
}

/// The commands that need no permission and write nothing act the same in
/// every mode of the bot, with the command's own data; suggestions follow
/// the dialog, and a random sticker leaves exactly the continuous tag mode.
pub proof fn lemma_hidden_passthrough(can_tag_stickers: bool, is_readonly: bool, state: DialogState, a: String, b: String, user_id: i64)
    ensures
        hidden_action_of(HiddenCommand::CreateSet { sticker_id: a, set_title: b }, can_tag_stickers, is_readonly, state)
            == (HiddenAction::CreateSet { sticker_id: a, set_title: b }),
        hidden_action_of(HiddenCommand::AddSticker { set_id: a, sticker_id: b }, can_tag_stickers, is_readonly, state)
            == (HiddenAction::AddSticker { set_id: a, sticker_id: b }),
        hidden_action_of(HiddenCommand::RemoveSticker { set_id: a, sticker_id: b }, can_tag_stickers, is_readonly, state)
            == (HiddenAction::RemoveSticker { set_id: a, sticker_id: b }),
        hidden_action_of(HiddenCommand::User { user_id }, can_tag_stickers, is_readonly, state) == (HiddenAction::ShowUser { user_id }),
        hidden_action_of(HiddenCommand::BlacklistTag { tag: a }, can_tag_stickers, is_readonly, state) == (HiddenAction::BlacklistTag { tag: a }),
        hidden_action_of(HiddenCommand::Cancel, can_tag_stickers, is_readonly, state) == HiddenAction::ExitMode,
        hidden_action_of(HiddenCommand::Random, can_tag_stickers, is_readonly, state)
            == (HiddenAction::RandomSticker { leave_continuous_tag_mode: state is ContinuousTag }),
        (hidden_action_of(HiddenCommand::AutoSuggest, can_tag_stickers, is_readonly, state) == HiddenAction::SuggestForContinuousTag) <==> state is ContinuousTag,
        (hidden_action_of(HiddenCommand::AutoSuggest, can_tag_stickers, is_readonly, state) == HiddenAction::SuggestForRecommender) <==> state is StickerRecommender,
        (hidden_action_of(HiddenCommand::AutoSuggest, can_tag_stickers, is_readonly, state) == HiddenAction::InvalidMode) <==> (state is Normal || state is TagCreator),
{
}

/// The mode commands show the mode that the user is in, and its start
/// otherwise; only the start command and the request for a sticker to tag
/// leave the current dialog; the start parameter picks what is shown.
pub proof fn lemma_regular_commands(cmd: RegularCommand, state: DialogState)
    ensures
        (regular_action_of(RegularCommand::TagCreator, state).1 == RegularAction::ShowTagCreator) <==> state is TagCreator,
        (regular_action_of(RegularCommand::TagCreator, state).1 == RegularAction::NameNewTag) <==> !(state is TagCreator),
        (regular_action_of(RegularCommand::ContinuousTagMode, state).1 == RegularAction::ShowContinuousTag) <==> state is ContinuousTag,
        (regular_action_of(RegularCommand::ContinuousTagMode, state).1 == RegularAction::ChooseContinuousTag) <==> !(state is ContinuousTag),
        regular_action_of(cmd, state).0 <==> (cmd is Start || cmd is TagMe),
        regular_action_of(RegularCommand::Start { start_parameter: StartParameter::Blacklist }, state).1 == RegularAction::ShowBlacklist,
        regular_action_of(RegularCommand::Start { start_parameter: StartParameter::Help }, state).1 == RegularAction::ShowHelp,
        regular_action_of(RegularCommand::Start { start_parameter: StartParameter::Regular }, state).1 == RegularAction::Greet,
        regular_action_of(RegularCommand::Start { start_parameter: StartParameter::Greeting }, state).1 == RegularAction::Greet,
        regular_action_of(RegularCommand::TagMe, state).1 == RegularAction::ShowStickerToTag,
        regular_action_of(RegularCommand::StickerRecommenderMode, state).1 == RegularAction::ShowRecommender,
        regular_action_of(RegularCommand::Settings, state).1 == RegularAction::ShowSettings,
        regular_action_of(RegularCommand::Stats, state).1 == RegularAction::ShowStats,
        regular_action_of(RegularCommand::ClearRecentlyUsed, state).1 == RegularAction::ClearRecentlyUsed,
        regular_action_of(RegularCommand::Help, state).1 == RegularAction::ShowHelp,
        regular_action_of(RegularCommand::Privacy, state).1 == RegularAction::ShowPrivacy,
{
}

/// Leaving a dialog: a user in any dialog is put back into the normal
/// state and told so; a user already in it stays and hears only where
/// asked.  Tagging a sticker by command, where allowed, tags the command's
/// sticker with the command's tags; setting a tag id passes the kind and
/// the id on.
pub proof fn lemma_exit_and_tagging(state: DialogState, notify: bool, sticker_unique_id: String, tag: TagList, kind: TagKind, tag_id: String, is_readonly: bool, reason: i64)
    ensures
        !is_readonly ==> hidden_action_of(HiddenCommand::ReportSet { reason, set_id: tag_id }, true, is_readonly, state) == (HiddenAction::ReportSet { reason, set_id: tag_id }),
        !(state is Normal) ==> exit_mode_spec(state, notify) == (true, Some("Back in normal mode"@)),
        state is Normal ==> !exit_mode_spec(state, notify).0,
        state is Normal && notify ==> exit_mode_spec(state, notify).1 == Some("I wasn't doing anything"@),
        state is Normal && !notify ==> exit_mode_spec(state, notify).1 is None,
        !is_readonly ==> hidden_action_of(HiddenCommand::TagSticker { sticker_unique_id, tag }, true, is_readonly, state)
            == (HiddenAction::TagSticker { sticker_unique_id, tags: tag.0 }),
        !is_readonly ==> hidden_action_of(HiddenCommand::TagSticker { sticker_unique_id, tag }, false, is_readonly, state) == HiddenAction::NotPermitted,
        is_readonly ==> hidden_action_of(HiddenCommand::TagSticker { sticker_unique_id, tag }, false, is_readonly, state) == HiddenAction::ReadOnlyNotice,
        !is_readonly ==> hidden_action_of(HiddenCommand::SetTag { kind, tag_id }, true, is_readonly, state) == (HiddenAction::SetTagId { kind, tag_id }),
        is_readonly ==> hidden_action_of(HiddenCommand::SetTag { kind, tag_id }, true, is_readonly, state) == HiddenAction::ReadOnlyNotice,
{
}

} // verus!
