use fuzzle::callback_data::{CallbackData, TagOperation};
use fuzzle::command::StartParameter;
use fuzzle::commands::{
    exit_mode, hidden_command_action, recommender_mode_start, regular_command_action, DialogState, HiddenAction,
    HiddenCommand, RegularAction, RegularCommand,
};
use fuzzle::guard::{callback_guard, callback_kind_guard, CallbackGuard, CallbackKind, DeniedAction};
use fuzzle::hidden::TagList;
use fuzzle::inline_data::SetOperation;
use fuzzle::periodic::discover_step;

fn strings(v: &[&str]) -> Vec<String> {
    v.iter().map(|s| s.to_string()).collect()
}

#[test]
fn admin_only_callbacks_are_refused_to_others() {
    let merge = CallbackData::Merge { sticker_id_a: "a".to_string(), sticker_id_b: "b".to_string(), merge: true };
    assert_eq!(callback_guard(&merge, false, true, false), CallbackGuard::NoPermission(DeniedAction::MergeStickers));
    assert_eq!(callback_guard(&merge, true, true, false), CallbackGuard::Proceed);
    let ban = CallbackData::ChangeSetStatus { set_name: "s".to_string(), banned: true };
    assert_eq!(callback_guard(&ban, false, true, false), CallbackGuard::NoPermission(DeniedAction::SetBannedStatus));
    assert_eq!(callback_guard(&CallbackData::UserInfo(5), false, true, false), CallbackGuard::Ignore);
    assert_eq!(callback_guard(&CallbackData::UserInfo(5), true, true, false), CallbackGuard::Proceed);
    assert_eq!(
        callback_kind_guard(CallbackKind::TagListAction, false, true, false),
        CallbackGuard::NoPermission(DeniedAction::ChangingTags)
    );
    assert_eq!(DeniedAction::MergeStickers.text(), "merge stickers");
}

#[test]
fn writing_callbacks_get_read_only_notice() {
    assert_eq!(callback_guard(&CallbackData::CreateTag, false, true, true), CallbackGuard::ReadOnlyNotice);
    assert_eq!(callback_guard(&CallbackData::CreateTag, false, true, false), CallbackGuard::Proceed);
    assert_eq!(callback_guard(&CallbackData::Help, false, false, true), CallbackGuard::Proceed);
    let tag = CallbackData::Sticker { sticker_id: "a".to_string(), operation: Some(TagOperation::Tag("fox".to_string())) };
    assert_eq!(callback_guard(&tag, false, true, true), CallbackGuard::ReadOnlyNotice);
    assert_eq!(callback_guard(&tag, false, false, true), CallbackGuard::NoPermission(DeniedAction::TagSticker));
    let show = CallbackData::Sticker { sticker_id: "a".to_string(), operation: None };
    assert_eq!(callback_guard(&show, false, true, true), CallbackGuard::Proceed);
    let lock = CallbackData::SetLock { sticker_id: "a".to_string(), lock: true };
    assert_eq!(callback_guard(&lock, false, false, false), CallbackGuard::Forbidden);
    assert_eq!(callback_guard(&lock, false, false, true), CallbackGuard::ReadOnlyNotice);
    assert_eq!(callback_kind_guard(CallbackKind::ApplyTags, true, true, true), CallbackGuard::ReadOnlyNotice);
}

#[test]
fn recommender_start_keeps_existing_marks() {
    let rec = DialogState::StickerRecommender { positive_sticker_id: strings(&["a"]), negative_sticker_id: vec![] };
    assert_eq!(recommender_mode_start(&rec), None);
    assert_eq!(
        recommender_mode_start(&DialogState::Normal),
        Some(DialogState::StickerRecommender { positive_sticker_id: vec![], negative_sticker_id: vec![] })
    );
}

#[test]
fn exit_mode_messages() {
    assert_eq!(exit_mode(&DialogState::Normal, true), (false, Some("I wasn't doing anything")));
    assert_eq!(exit_mode(&DialogState::Normal, false), (false, None));
    let ct = DialogState::ContinuousTag { add_tags: vec![], remove_tags: vec![] };
    assert_eq!(exit_mode(&ct, false), (true, Some("Back in normal mode")));
}

#[test]
fn hidden_command_decisions() {
    let ct = DialogState::ContinuousTag { add_tags: vec![], remove_tags: vec![] };
    let cmd = HiddenCommand::TagSticker { sticker_unique_id: "a".to_string(), tag: TagList(strings(&["fox"])) };
    assert_eq!(hidden_command_action(cmd.clone(), true, true, &ct), HiddenAction::ReadOnlyNotice);
    assert_eq!(hidden_command_action(cmd.clone(), false, false, &ct), HiddenAction::NotPermitted);
    assert_eq!(
        hidden_command_action(cmd, true, false, &ct),
        HiddenAction::TagSticker { sticker_unique_id: "a".to_string(), tags: strings(&["fox"]) }
    );
    assert_eq!(
        hidden_command_action(HiddenCommand::UntagContinuous { tag: TagList(strings(&["x"])) }, true, false, &ct),
        HiddenAction::ModifyContinuousTag { tags: strings(&["x"]), operation: SetOperation::Untag }
    );
    assert_eq!(hidden_command_action(HiddenCommand::AutoSuggest, true, false, &ct), HiddenAction::SuggestForContinuousTag);
    assert_eq!(hidden_command_action(HiddenCommand::AutoSuggest, true, false, &DialogState::Normal), HiddenAction::InvalidMode);
    assert_eq!(
        hidden_command_action(HiddenCommand::Random, true, false, &ct),
        HiddenAction::RandomSticker { leave_continuous_tag_mode: true }
    );
    assert_eq!(
        hidden_command_action(HiddenCommand::BlacklistTag { tag: "gore".to_string() }, true, true, &ct),
        HiddenAction::BlacklistTag { tag: "gore".to_string() }
    );
}

#[test]
fn regular_command_decisions() {
    let ct = DialogState::ContinuousTag { add_tags: vec![], remove_tags: vec![] };
    assert_eq!(regular_command_action(RegularCommand::ContinuousTagMode, &ct), (false, RegularAction::ShowContinuousTag));
    assert_eq!(
        regular_command_action(RegularCommand::ContinuousTagMode, &DialogState::Normal),
        (false, RegularAction::ChooseContinuousTag)
    );
    assert_eq!(
        regular_command_action(RegularCommand::Start { start_parameter: StartParameter::Blacklist }, &ct),
        (true, RegularAction::ShowBlacklist)
    );
    assert_eq!(regular_command_action(RegularCommand::TagMe, &ct), (true, RegularAction::ShowStickerToTag));
}

#[test]
fn discovery_schedule() {
    assert_eq!(discover_step(0, Some((20, 0))), (20, 5));
    assert_eq!(discover_step(20, Some((20, 0))), (20, 300));
    assert_eq!(discover_step(0, Some((20, 3))), (20, 300));
    assert_eq!(discover_step(7, None), (7, 300));
}

#[test]
fn command_descriptions() {
    let user = fuzzle::commands::user_command_description();
    assert!(user.starts_with("Supported commands\n\n/settings — show settings\n"));
    assert!(user.ends_with("/privacy — show privacy information"));
    assert_eq!(user.lines().count(), 12);
    let admin = fuzzle::commands::admin_command_description();
    assert!(admin.starts_with("Admin commands\n\n/banset — "));
    assert_eq!(admin.lines().count(), 7);
}
