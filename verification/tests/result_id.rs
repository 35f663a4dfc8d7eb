use fuzzle::emoji::Emoji;
use fuzzle::result_id::InlineQueryResultId;

#[test]
fn result_id_texts() {
    assert_eq!(InlineQueryResultId::Sticker("ab-c_1".to_string()).to_string(), "s:ab-c_1");
    assert_eq!(InlineQueryResultId::Tag("male".to_string()).to_string(), "t:male");
    assert_eq!(InlineQueryResultId::StickerSet("my_set".to_string()).to_string(), "st:my_set");
    assert_eq!(InlineQueryResultId::User(-42).to_string(), "u:-42");
    assert_eq!(InlineQueryResultId::Other("help1".to_string()).to_string(), "o:help1");
    assert_eq!(
        InlineQueryResultId::Emoji(Emoji::new_from_string_single("❤️")).to_string(),
        "e:❤"
    );
}

#[test]
fn result_ids_read_back() {
    for id in [
        InlineQueryResultId::Sticker("ab-c_1".to_string()),
        InlineQueryResultId::Tag("male".to_string()),
        InlineQueryResultId::StickerSet("my_set".to_string()),
        InlineQueryResultId::User(i64::MIN),
        InlineQueryResultId::User(7),
        InlineQueryResultId::Other("help1".to_string()),
        InlineQueryResultId::Emoji(Emoji::new_from_string_single("🦊")),
    ] {
        assert_eq!(InlineQueryResultId::try_from(id.to_string()).unwrap(), id);
    }
}

#[test]
fn result_id_refusals() {
    for text in ["", "s:", "s:a b", "x:1", "st:a-b", "u:", "u:1x", "u:99999999999999999999", "o:a_b", "e:abc", "t:a,b", "s"] {
        let err = InlineQueryResultId::parse(text).unwrap_err();
        assert_eq!(err.input, text);
    }
    assert_eq!(InlineQueryResultId::parse("u:+5").unwrap(), InlineQueryResultId::User(5));
    assert_eq!(
        InlineQueryResultId::parse("e:❤️").unwrap(),
        InlineQueryResultId::Emoji(Emoji::new_from_string_single("❤"))
    );
}
