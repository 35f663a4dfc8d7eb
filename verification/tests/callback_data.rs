use fuzzle::model::parse_order_text;
use fuzzle::callback_data::{CallbackData, FavoriteAction, TagOperation};
use fuzzle::model::{Category, StickerOrder};

#[test]
fn parse_fail() {
    let result = CallbackData::try_from(String::new());
    assert!(result.unwrap_err().to_string().contains("Parsing Error"));
}

#[test]
fn parse_sticker_tag() {
    let data = CallbackData::try_from("s;5uh33fj84;t;male".to_string()).unwrap();
    assert_eq!(
        CallbackData::Sticker {
            sticker_id: "5uh33fj84".to_string(),
            operation: Some(TagOperation::Tag("male".to_string())),
        },
        data
    );
}

#[test]
fn parse_sticker_untag() {
    let data = CallbackData::try_from("s;5uh33fj84;u;male".to_string()).unwrap();
    assert_eq!(
        CallbackData::Sticker {
            sticker_id: "5uh33fj84".to_string(),
            operation: Some(TagOperation::Untag("male".to_string())),
        },
        data
    );
}

#[test]
fn parse_stringify_help() {
    let data = CallbackData::try_from("help".to_string()).unwrap();
    assert_eq!(data, CallbackData::Help);
    assert_eq!(data.to_string(), "help");
}

#[test]
fn parse_stringify_start() {
    let data = CallbackData::try_from("start".to_string()).unwrap();
    assert_eq!(data, CallbackData::Start);
    assert_eq!(data.to_string(), "start");
}

fn roundtrip(data: CallbackData) {
    let text = data.to_string();
    assert_eq!(CallbackData::parse(&text).unwrap(), data, "text {text}");
}

#[test]
fn callback_texts_read_back() {
    roundtrip(CallbackData::Settings);
    roundtrip(CallbackData::RemoveLinkedChannel);
    roundtrip(CallbackData::RemoveLinkedUser);
    roundtrip(CallbackData::RemoveBlacklistedTag("fox_(species)".to_string()));
    roundtrip(CallbackData::RemoveContinuousTag("solo".to_string()));
    roundtrip(CallbackData::RemoveAlias("wolf".to_string()));
    roundtrip(CallbackData::UserInfo(18446744073709551615));
    roundtrip(CallbackData::SetOrder(StickerOrder::Random));
    roundtrip(CallbackData::SetOrder(StickerOrder::LatestFirst));
    roundtrip(CallbackData::SetCategory(Some(Category::Character)));
    roundtrip(CallbackData::SetCategory(None));
    roundtrip(CallbackData::StickerSetPage { sticker_id: "AgAD-x_1".to_string() });
    roundtrip(CallbackData::DownloadSticker { sticker_id: "a".to_string() });
    roundtrip(CallbackData::StickerExplorePage { sticker_id: "b".to_string() });
    roundtrip(CallbackData::ToggleExampleSticker { sticker_id: "c".to_string() });
    roundtrip(CallbackData::Sticker { sticker_id: "x".to_string(), operation: None });
    roundtrip(CallbackData::FavoriteSticker { sticker_id: "x".to_string(), operation: FavoriteAction::Unfavorite });
    roundtrip(CallbackData::SetLock { sticker_id: "x".to_string(), lock: false });
    roundtrip(CallbackData::ToggleRecommendSticker { sticker_id: "x".to_string(), positive: true });
    roundtrip(CallbackData::ChangeSetStatus { set_name: "my_set".to_string(), banned: false });
    roundtrip(CallbackData::Merge { sticker_id_a: "a".to_string(), sticker_id_b: "b".to_string(), merge: true });
}

#[test]
fn callback_texts_exact() {
    assert_eq!(CallbackData::Sticker { sticker_id: "x".to_string(), operation: None }.to_string(), "s;x;");
    assert_eq!(CallbackData::SetCategory(Some(Category::Character)).to_string(), "cat;4");
    assert_eq!(CallbackData::SetCategory(None).to_string(), "cat;none");
    assert_eq!(CallbackData::SetOrder(StickerOrder::Random).to_string(), "order;1");
    assert_eq!(CallbackData::UserInfo(42).to_string(), "userinfo;42");
    assert_eq!(
        CallbackData::Merge { sticker_id_a: "a".to_string(), sticker_id_b: "b".to_string(), merge: false }.to_string(),
        "merge;a;b;false"
    );
}

#[test]
fn callback_grammar_edges() {
    // a prefix that the first matching alternative reads, with more after it
    assert!(CallbackData::parse("startx").is_err());
    // numbers with leading zeros and JSON whitespace
    assert_eq!(CallbackData::parse("cat;007").unwrap(), CallbackData::SetCategory(Some(Category::Meta)));
    assert_eq!(CallbackData::parse("cat;12").unwrap(), CallbackData::SetCategory(None));
    assert!(CallbackData::parse("cat;256").is_err());
    assert_eq!(CallbackData::parse("order; 1 ").unwrap(), CallbackData::SetOrder(StickerOrder::Random));
    assert!(CallbackData::parse("order;2").is_err());
    assert!(CallbackData::parse("userinfo;18446744073709551616").is_err());
    // an operation that does not read leaves the sticker without one, and the rest unread
    assert!(CallbackData::parse("s;abc;x").is_err());
    assert_eq!(
        CallbackData::parse("s;abc;").unwrap(),
        CallbackData::Sticker { sticker_id: "abc".to_string(), operation: None }
    );
}

#[test]
fn order_texts_follow_json_number_grammar() {
    assert_eq!(parse_order_text("0"), Some(StickerOrder::LatestFirst));
    assert_eq!(parse_order_text(" 1\n"), Some(StickerOrder::Random));
    assert_eq!(parse_order_text("01"), None);
    assert_eq!(parse_order_text("1.0"), None);
    assert_eq!(parse_order_text("-0"), None);
    assert_eq!(parse_order_text("2"), None);
    assert_eq!(parse_order_text("256"), None);
}

#[test]
fn owner_page_text_reads_back() {
    let d = CallbackData::OwnerPage { sticker_id: "abc".to_string() };
    assert_eq!(d.to_string(), "owner;abc");
    assert_eq!(CallbackData::parse("owner;abc"), Ok(d));
}
