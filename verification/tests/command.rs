use fuzzle::command::{
    escape_sticker_unique_id_for_command, fix_underline_command_separator_and_normalize,
    unescape_sticker_unique_id_from_command, StartParameter,
};
use fuzzle::errors::{CommandParseError, UserError};
use fuzzle::privacy::PrivacyPolicy;
use std::str::FromStr;

fn escape_unescape(text: &str) {
    assert_eq!(
        text,
        unescape_sticker_unique_id_from_command(&escape_sticker_unique_id_for_command(text))
    )
}

#[test]
fn test_escape_unescape() {
    escape_unescape("asdf");
    escape_unescape("as-d-f");
    escape_unescape("as_d-f");
    escape_unescape("as__d-f");
    escape_unescape("as_-_d-f");
    escape_unescape("as_-df");
    escape_unescape("as-_df");
    escape_unescape("as--df");
    escape_unescape("as___df");
    escape_unescape("as---df");
}

#[test]
fn escape_writes_each_dash_as_marker() {
    assert_eq!(escape_sticker_unique_id_for_command("a-b--c"), "a_uwu_b_uwu__uwu_c");
    assert_eq!(escape_sticker_unique_id_for_command("abc_"), "abc_");
    assert_eq!(escape_sticker_unique_id_for_command(""), "");
}

#[test]
fn unescape_reads_markers_left_to_right() {
    assert_eq!(unescape_sticker_unique_id_from_command("a_uwu_b"), "a-b");
    assert_eq!(unescape_sticker_unique_id_from_command("_uwu_uwu_"), "-uwu_");
    assert_eq!(unescape_sticker_unique_id_from_command("_uw_"), "_uw_");
}

#[test]
fn escape_unescape_fails_where_the_id_holds_uwu() {
    // `_uwu-` is written `_uwu_uwu_`, whose first `_uwu_` reads as `-`.
    assert_eq!(
        unescape_sticker_unique_id_from_command(&escape_sticker_unique_id_for_command("_uwu-")),
        "-uwu_"
    );
}

#[test]
fn start_parameter_reads_known_texts() {
    assert_eq!(StartParameter::from_str("").unwrap(), StartParameter::Regular);
    assert_eq!(StartParameter::from_str("blacklist").unwrap(), StartParameter::Blacklist);
    assert_eq!(StartParameter::from_str("help").unwrap(), StartParameter::Help);
    assert_eq!(StartParameter::from_str("beep").unwrap(), StartParameter::Greeting);
    assert_eq!(StartParameter::from_str("boop"), Err(UserError::InvalidStartParameter));
    assert_eq!(StartParameter::from_str("Help"), Err(UserError::InvalidStartParameter));
}

#[test]
fn start_parameter_roundtrip() {
    for p in [
        StartParameter::Regular,
        StartParameter::Blacklist,
        StartParameter::Help,
        StartParameter::Greeting,
    ] {
        assert_eq!(StartParameter::parse(&p.to_string()).unwrap(), p);
    }
    assert_eq!(StartParameter::Greeting.to_string(), "beep");
    assert_eq!(StartParameter::Regular.to_string(), "");
}

#[test]
fn underline_command_separator() {
    assert_eq!(fix_underline_command_separator_and_normalize("/tag_abc def "), "/tag abc def");
    assert_eq!(fix_underline_command_separator_and_normalize("/Tag_x_y"), "/Tag x_y");
    assert_eq!(fix_underline_command_separator_and_normalize("  /start  "), "/start");
    assert_eq!(fix_underline_command_separator_and_normalize("/_x"), "/_x");
    assert_eq!(fix_underline_command_separator_and_normalize("/ab1_x"), "/ab1_x");
    assert_eq!(fix_underline_command_separator_and_normalize("x/ab_c"), "x/ab_c");
    assert_eq!(fix_underline_command_separator_and_normalize("/ab_"), "/ab");
    assert_eq!(fix_underline_command_separator_and_normalize("\u{3000}/a_b\n"), "/a_b");
}

#[test]
fn end_user_messages() {
    assert_eq!(
        UserError::NoPermissionForAction("ban".to_string()).end_user_error(),
        "Oh no, I can't let you do this (ban) yet."
    );
    assert_eq!(UserError::InvalidMode.end_user_error(), "Can't do that here!");
    assert_eq!(
        UserError::UnsupportedStickerType.end_user_error(),
        "Those don't look like regular stickers."
    );
    assert_eq!(UserError::StickerNotPartOfSet.end_user_error(), "Stickers must be part of a set!");
    assert!(UserError::UnhandledMessageType.end_user_error().starts_with("I have no idea what to do with this."));
    assert_eq!(
        UserError::CommandError(CommandParseError::UnknownCommand("/x".to_string())).end_user_error(),
        "What the heck is a \"/x\"?"
    );
    assert_eq!(
        UserError::CommandError(CommandParseError::InvalidArguments).end_user_error(),
        "Invalid arguments!"
    );
    assert_eq!(UserError::InvalidStartParameter.end_user_error(), "Invalid arguments!");
    assert_eq!(
        UserError::ParseError(12, "0123456789abc".to_string()).end_user_error(),
        "Invalid input at position 12: 0123456789"
    );
    assert_eq!(
        UserError::ParseError(3, "äb".to_string()).end_user_error(),
        "Invalid input at position 3: äb"
    );
    assert_eq!(
        UserError::TagsNotFound(vec!["a".to_string(), "b c".to_string()]).end_user_error(),
        "Could not find tags: a, b c"
    );
    assert_eq!(UserError::TagsNotFound(vec![]).end_user_error(), "Could not find tags: ");
}

#[test]
fn privacy_sections() {
    assert_eq!(PrivacyPolicy::Introduction.title(), "Introduction");
    assert_eq!(PrivacyPolicy::License.title(), "License");
    assert_eq!(PrivacyPolicy::DataCollection.title(), "Data Collection");
    assert_eq!(PrivacyPolicy::DataUsage.title(), "Data Usage");
    assert!(PrivacyPolicy::Introduction.text().starts_with("*Terms of Service & Privacy Policy*"));
    assert!(PrivacyPolicy::License.text().starts_with("*License*"));
    assert!(PrivacyPolicy::DataCollection.text().starts_with("*Data Collection*"));
    assert!(PrivacyPolicy::DataUsage.text().starts_with("*Data Usage*"));
    assert_eq!(PrivacyPolicy::default(), PrivacyPolicy::Introduction);
    assert_eq!(PrivacyPolicy::from_u8(2), Some(PrivacyPolicy::DataCollection));
    assert_eq!(PrivacyPolicy::from_u8(4), None);
    assert_eq!(PrivacyPolicy::DataUsage.to_u8(), 3);
}
