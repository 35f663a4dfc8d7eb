use fuzzle::callback_data::{CallbackData, FavoriteAction, TagOperation};
use fuzzle::emoji::Emoji;
use fuzzle::inline_data::{InlineQueryData, SetOperation, SimilarityAspect, TagKind};
use fuzzle::keyboard::{can_insert_tag_in_column, favorite_button, tag_to_button, Button, ButtonAction, Keyboard};
use fuzzle::model::{StickerOrder, UserSettings};

fn cb(text: &str, d: CallbackData) -> Button {
    Button { text: text.to_string(), action: ButtonAction::Callback(d) }
}

fn q(text: &str, d: InlineQueryData) -> Button {
    Button { text: text.to_string(), action: ButtonAction::QueryInCurrentChat(d) }
}

fn strings(v: &[&str]) -> Vec<String> {
    v.iter().map(|s| s.to_string()).collect()
}

#[test]
fn blacklist_keyboard() {
    let k = Keyboard::blacklist(&strings(&["gore", "vore"]));
    assert_eq!(
        k,
        vec![
            vec![cb("🔙 Settings", CallbackData::Settings)],
            vec![cb("Remove \"gore\"", CallbackData::RemoveBlacklistedTag("gore".to_string()))],
            vec![cb("Remove \"vore\"", CallbackData::RemoveBlacklistedTag("vore".to_string()))],
            vec![q("Add tag", InlineQueryData::blacklist_query(vec![]))],
        ]
    );
    assert_eq!(InlineQueryData::blacklist_query(vec![]).to_string(), "(blacklist) ");
}

#[test]
fn continuous_tag_keyboard() {
    let k = Keyboard::make_continuous_tag_keyboard(true, &strings(&["a"]), &strings(&["b"]));
    assert_eq!(
        k,
        vec![
            vec![q("Select tag", InlineQueryData::continuous_tag_mode(vec![], SetOperation::Tag))],
            vec![q("Select tag (untag)", InlineQueryData::continuous_tag_mode(vec![], SetOperation::Untag))],
            vec![cb("Remove \"a\" from the list", CallbackData::RemoveContinuousTag("a".to_string()))],
            vec![cb("Remove \"b\" from the list", CallbackData::RemoveContinuousTag("b".to_string()))],
            vec![cb("❌ Exit Continuous Tag Mode", CallbackData::ExitDialog)],
        ]
    );
    assert_eq!(Keyboard::make_continuous_tag_keyboard(false, &vec![], &vec![]).len(), 2);
}

#[test]
fn simple_keyboards() {
    assert_eq!(
        Keyboard::make_main_keyboard(),
        vec![
            vec![cb("Help", CallbackData::Help), cb("Settings", CallbackData::Settings)],
            vec![cb("What else can you do?", CallbackData::FeatureOverview)],
            vec![Button { text: "Use me in a chat".to_string(), action: ButtonAction::QueryInOtherChat(String::new()) }],
        ]
    );
    assert_eq!(Keyboard::dialog_exit(), vec![vec![cb("❌ Exit Mode", CallbackData::ExitDialog)]]);
    assert_eq!(Keyboard::make_help_keyboard()[1], vec![cb("▸ Commands ◂", CallbackData::Help)]);
    assert_eq!(Keyboard::info()[2], vec![cb("▸ Other Infos ◂", CallbackData::Info)]);
    assert_eq!(
        Keyboard::tag_creator_initial(),
        vec![vec![q("Name input", InlineQueryData::tag_creator(String::new(), TagKind::Main))]]
    );
    assert_eq!(
        Keyboard::make_set_keyboard("my_set".to_string())[0][1],
        q("Remove tags from the set", InlineQueryData::set_operation("my_set", vec![], SetOperation::Untag))
    );
    assert_eq!(
        Keyboard::embedding()[0][0].action,
        ButtonAction::QueryInCurrentChat(InlineQueryData::embedding("stupid inside box".to_string()))
    );
    let fox = Emoji::new_from_string_single("🦊");
    assert_eq!(
        Keyboard::emoji_article(&fox),
        vec![vec![q("List stickers (ignores blacklist)", InlineQueryData::search_emoji(vec![], vec![fox.clone()]))]]
    );
}

#[test]
fn settings_keyboard_offers_the_other_order() {
    assert_eq!(
        Keyboard::make_settings_keyboard(StickerOrder::LatestFirst)[1],
        vec![cb("🔀 Change Ordering", CallbackData::SetOrder(StickerOrder::Random))]
    );
    assert_eq!(
        Keyboard::make_settings_keyboard(StickerOrder::Random)[1],
        vec![cb("🆕 Change Ordering", CallbackData::SetOrder(StickerOrder::LatestFirst))]
    );
}

#[test]
fn favorite_and_tag_buttons() {
    assert_eq!(
        favorite_button(true, "abc"),
        cb("⭐ Favorite", CallbackData::FavoriteSticker { sticker_id: "abc".to_string(), operation: FavoriteAction::Unfavorite })
    );
    assert_eq!(
        favorite_button(false, "abc"),
        cb("⚫ Mark as favorite", CallbackData::FavoriteSticker { sticker_id: "abc".to_string(), operation: FavoriteAction::Favorite })
    );
    let current = strings(&["male", "solo"]);
    assert_eq!(
        tag_to_button("solo", &current, "abc", Some("👤")),
        cb("👤 solo", CallbackData::untag_sticker("abc", "solo"))
    );
    assert_eq!(tag_to_button("solo", &current, "abc", None), cb("✅ solo", CallbackData::untag_sticker("abc", "solo")));
    assert_eq!(
        tag_to_button("duo", &current, "abc", Some("👤")),
        cb("duo", CallbackData::Sticker { sticker_id: "abc".to_string(), operation: Some(TagOperation::Tag("duo".to_string())) })
    );
}

#[test]
fn tag_column_room() {
    assert!(can_insert_tag_in_column(&vec![], "a_very_long_tag_name", 2));
    assert!(can_insert_tag_in_column(&strings(&["abcdefghij"]), "abcdefghijklmnopqr", 2));
    assert!(!can_insert_tag_in_column(&strings(&["abcdefghij"]), "abcdefghijklmnopqrs", 2));
    assert!(!can_insert_tag_in_column(&strings(&["abcdefghijklmnopqrstu"]), "a", 0));
    assert!(!can_insert_tag_in_column(&strings(&["a", "b", "c", "d", "e", "f"]), "g", 0));
    assert!(can_insert_tag_in_column(&strings(&["a", "b", "c", "d"]), "e", 5));
    assert!(!can_insert_tag_in_column(&strings(&["ä", "b", "c", "d"]), "e", 5));
}

#[test]
fn callback_constructors() {
    assert_eq!(CallbackData::tag_sticker("s", "t").to_string(), "s;s;t;t");
    assert_eq!(CallbackData::untag_sticker("s", "t").to_string(), "s;s;u;t");
    assert_eq!(CallbackData::user_info(5), CallbackData::UserInfo(5));
    assert_eq!(
        CallbackData::change_set_status("x", true),
        CallbackData::ChangeSetStatus { set_name: "x".to_string(), banned: true }
    );
    assert_eq!(
        CallbackData::merge("a", "b", false),
        CallbackData::Merge { sticker_id_a: "a".to_string(), sticker_id_b: "b".to_string(), merge: false }
    );
}

#[test]
fn user_settings_order() {
    assert_eq!(UserSettings { order: None }.order(), StickerOrder::LatestFirst);
    assert_eq!(UserSettings { order: Some(StickerOrder::Random) }.order(), StickerOrder::Random);
    assert_eq!(StickerOrder::default(), StickerOrder::LatestFirst);
}

#[test]
fn recommender_keyboard() {
    let k = Keyboard::recommender("abc", &strings(&["abc"]), &strings(&["x"]), false);
    assert_eq!(
        k[0],
        vec![
            cb("✅ More like this", CallbackData::ToggleRecommendSticker { sticker_id: "abc".to_string(), positive: true }),
            cb("Less like this", CallbackData::ToggleRecommendSticker { sticker_id: "abc".to_string(), positive: false }),
        ]
    );
    assert_eq!(k[1][0], favorite_button(false, "abc"));
    assert_eq!(k[1][1], q("🔧 Add to your set", InlineQueryData::add_to_user_set("abc".to_string())));
    assert_eq!(k[2][1], q("🦄 Similar", InlineQueryData::similar("abc", SimilarityAspect::Embedding)));
    assert_eq!(k[3], vec![q("🪄 Recommend", InlineQueryData::recommendations())]);
    assert_eq!(
        Keyboard::tag_creator_sticker(&strings(&["abc"]), "abc"),
        vec![vec![cb("✅ Use as example", CallbackData::ToggleExampleSticker { sticker_id: "abc".to_string() })]]
    );
    assert_eq!(
        Keyboard::tag_creator_sticker(&vec![], "abc")[0][0].text,
        "Use as example"
    );
}

fn tabs(id: &str) -> Vec<Button> {
    vec![
        cb("▸ 🏷 Tags ◂", CallbackData::Sticker { sticker_id: id.to_string(), operation: None }),
        cb("✨️ Sticker", CallbackData::StickerExplorePage { sticker_id: id.to_string() }),
        cb("️🗂️ Set", CallbackData::StickerSetPage { sticker_id: id.to_string() }),
        cb("️👤 Owner", CallbackData::OwnerPage { sticker_id: id.to_string() }),
    ]
}

fn untag(text: &str, id: &str, tag: &str) -> Button {
    cb(text, CallbackData::untag_sticker(id, tag))
}

fn tag(id: &str, t: &str) -> Button {
    cb(t, CallbackData::tag_sticker(id, t))
}

#[test]
fn tagging_keyboard_without_rating_offers_ratings() {
    let k = Keyboard::tagging(
        &strings(&["solo", "male"]),
        "abc",
        &strings(&["fox"]),
        false,
        false,
        &vec![Some(0), None],
        &vec![false, false],
        &vec![false],
        &strings(&["solo", "duo", "group"]),
        &strings(&["safe", "questionable", "explicit"]),
        &vec![None, Some("♂".to_string())],
    );
    assert_eq!(
        k,
        vec![
            tabs("abc"),
            vec![untag("✅ solo", "abc", "solo")],
            vec![tag("abc", "safe"), tag("abc", "questionable"), tag("abc", "explicit")],
        ]
    );
}

#[test]
fn tagging_keyboard_packs_tags_longest_first() {
    let k = Keyboard::tagging(
        &strings(&["solo", "safe", "canine", "meta_sticker"]),
        "abc",
        &strings(&["male", "solo", "explicit", "fox"]),
        false,
        true,
        &vec![Some(0), None, None, None],
        &vec![false, true, false, false],
        &vec![false, false, true, false],
        &strings(&["solo", "duo"]),
        &strings(&["safe", "explicit"]),
        &vec![None, None, Some("🐾".to_string()), None],
    );
    assert_eq!(
        k,
        vec![
            tabs("abc"),
            vec![untag("✅ meta_sticker", "abc", "meta_sticker"), untag("🐾 canine", "abc", "canine")],
            vec![untag("✅ safe", "abc", "safe"), untag("✅ solo", "abc", "solo")],
            vec![tag("abc", "male"), tag("abc", "fox")],
            vec![q("Add more tags to this sticker", InlineQueryData::empty_sticker_query("abc"))],
            vec![cb("🔓 Bulk Tagging Unlocked", CallbackData::SetLock { sticker_id: "abc".to_string(), lock: true })],
            vec![cb("❌ Exit Continuous Tag Mode", CallbackData::ExitDialog)],
        ]
    );
}

#[test]
fn tagging_keyboard_locked_without_meta_tag() {
    let k = Keyboard::tagging(
        &strings(&["solo", "safe"]),
        "abc",
        &vec![],
        true,
        false,
        &vec![Some(0), None],
        &vec![false, true],
        &vec![],
        &vec![],
        &vec![],
        &vec![None, None],
    );
    assert_eq!(k.len(), 5);
    assert_eq!(k[0], tabs("abc"));
    assert_eq!(k[2], Vec::<Button>::new());
    assert_eq!(k[4], vec![cb("🔒 Bulk Tagging Locked", CallbackData::SetLock { sticker_id: "abc".to_string(), lock: false })]);
}
