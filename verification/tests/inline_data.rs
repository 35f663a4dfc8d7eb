use fuzzle::emoji::Emoji;
use fuzzle::errors::UserError;
use fuzzle::inline_data::{InlineQueryData, SetOperation, SimilarityAspect, TagKind};

#[test]
fn set_tag_operation() {
    assert_eq!(
        InlineQueryData::try_from("(se:asdf) dragon uwu".to_string()).unwrap(),
        InlineQueryData::SearchTagsForStickerSet {
            set_name: "asdf".to_string(),
            operation: SetOperation::Tag,
            tags: vec![vec!["dragon".to_string(), "uwu".to_string()]],
        }
    );
}

#[test]
fn stringify_query() {
    let query = InlineQueryData::empty_sticker_query("asdf");
    assert_eq!(query.to_string(), "(s:asdf) ");
}

#[test]
fn stringify_tag_query() {
    let query = InlineQueryData::sticker_query(
        "asdf",
        vec![vec!["male".to_string(), "female".to_string()]],
    );
    assert_eq!(query.to_string(), "(s:asdf) male female");
}

#[test]
fn stringify_tag_query_multiple() {
    let query = InlineQueryData::sticker_query(
        "asdf",
        vec![
            vec!["male".to_string(), "female".to_string()],
            vec!["asdf".to_string()],
        ],
    );
    assert_eq!(query.to_string(), "(s:asdf) male female, asdf");
}

#[test]
fn parse_query() {
    let query = InlineQueryData::try_from("male female".to_string()).unwrap();
    assert_eq!(
        query,
        InlineQueryData::search(vec!["male".to_string(), "female".to_string()])
    );
}

#[test]
fn parse_emoji_query() {
    let query = InlineQueryData::try_from("🏳️‍🌈".to_string()).unwrap();
    let flag = Emoji::new_from_string_single("🏳️‍🌈");
    assert_eq!(query, InlineQueryData::search_emoji(vec![], vec![flag]));
}

#[test]
fn parse_blacklist_query() {
    let query = InlineQueryData::try_from("(blacklist) attribution".to_string()).unwrap();
    assert_eq!(
        query,
        InlineQueryData::blacklist_query(vec!["attribution".to_string()])
    );
}

#[test]
fn query_error_position() {
    match InlineQueryData::try_from("(s:abc) male; female".to_string()) {
        Err(UserError::ParseError(pos, rest)) => {
            assert_eq!(pos, 12);
            assert_eq!(rest, "; female");
        }
        other => panic!("unexpected {other:?}"),
    }
    match InlineQueryData::try_from("🦊 ;".to_string()) {
        Err(UserError::ParseError(pos, rest)) => {
            assert_eq!(pos, 5);
            assert_eq!(rest, ";");
        }
        other => panic!("unexpected {other:?}"),
    }
}

#[test]
fn query_texts() {
    assert_eq!(InlineQueryData::most_duplicated_stickers().to_string(), "(dup) ");
    assert_eq!(InlineQueryData::most_used_emojis().to_string(), "(emo) ");
    assert_eq!(InlineQueryData::recommendations().to_string(), "(rec) ");
    assert_eq!(InlineQueryData::sets("x".to_string()).to_string(), "(contains:x) ");
    assert_eq!(InlineQueryData::overlapping_sets("x".to_string()).to_string(), "(overlap:x) ");
    assert_eq!(InlineQueryData::set_stickers_by_date("x".to_string()).to_string(), "(dates:x) ");
    assert_eq!(InlineQueryData::all_set_tags("x".to_string()).to_string(), "(settags:x) ");
    assert_eq!(InlineQueryData::add_to_user_set("x".to_string()).to_string(), "(add:x) ");
    assert_eq!(InlineQueryData::similar("x", SimilarityAspect::Color).to_string(), "(color:x) ");
    assert_eq!(InlineQueryData::similar("x", SimilarityAspect::Embedding).to_string(), "(embed:x) ");
    assert_eq!(InlineQueryData::embedding("a fox".to_string()).to_string(), "(embed) a fox");
    assert_eq!(InlineQueryData::tag_creator("fox".to_string(), TagKind::Alias).to_string(), "(alias) fox");
    assert_eq!(InlineQueryData::tag_creator("fox".to_string(), TagKind::Main).to_string(), "(tag) fox");
    assert_eq!(
        InlineQueryData::continuous_tag_mode(vec![vec!["a".to_string()]], SetOperation::Untag).to_string(),
        "(-cont) a"
    );
    assert_eq!(
        InlineQueryData::set_operation("s", vec![], SetOperation::Untag).to_string(),
        "(su:s) "
    );
    assert_eq!(InlineQueryData::SetsByUserId { user_id: -3 }.to_string(), "(usersets:-3) ");
    assert_eq!(InlineQueryData::search(vec!["a".to_string(), "b".to_string()]).to_string(), "a b");
}

#[test]
fn query_parses() {
    assert_eq!(
        InlineQueryData::try_from("(add:abc)   My Set  ".to_string()).unwrap(),
        InlineQueryData::AddToUserSet { sticker_id: "abc".to_string(), set_title: Some("My Set".to_string()) }
    );
    assert_eq!(
        InlineQueryData::try_from("(add:abc)".to_string()).unwrap(),
        InlineQueryData::add_to_user_set("abc".to_string())
    );
    assert_eq!(
        InlineQueryData::try_from("(usersets:42) ".to_string()).unwrap(),
        InlineQueryData::SetsByUserId { user_id: 42 }
    );
    assert_eq!(
        InlineQueryData::try_from("(tag) fox".to_string()).unwrap(),
        InlineQueryData::tag_creator(" fox".to_string(), TagKind::Main)
    );
    assert_eq!(
        InlineQueryData::try_from("(cont) a b ,, c".to_string()).unwrap(),
        InlineQueryData::continuous_tag_mode(
            vec![vec!["a".to_string(), "b".to_string()], vec!["c".to_string()]],
            SetOperation::Tag
        )
    );
    assert_eq!(
        InlineQueryData::try_from("(dup)".to_string()).unwrap(),
        InlineQueryData::most_duplicated_stickers()
    );
    assert_eq!(
        InlineQueryData::try_from("".to_string()).unwrap(),
        InlineQueryData::search(vec![])
    );
}

#[test]
fn tag_kind_from_number() {
    assert_eq!("1".parse::<TagKind>().unwrap(), TagKind::Alias);
    assert_eq!("0".parse::<TagKind>().unwrap(), TagKind::Main);
    assert_eq!("7".parse::<TagKind>().unwrap(), TagKind::Main);
    assert!(matches!("x".parse::<TagKind>(), Err(UserError::ParseError(0, _))));
}

fn reads_back(q: InlineQueryData) {
    assert_eq!(InlineQueryData::try_from(q.to_string()).unwrap(), q);
}

#[test]
fn query_texts_read_back() {
    reads_back(InlineQueryData::sticker_query(
        "asdf",
        vec![vec!["male".to_string(), "female".to_string()], vec!["solo".to_string()]],
    ));
    reads_back(InlineQueryData::empty_sticker_query("a-b_c"));
    reads_back(InlineQueryData::set_operation("my_set", vec![vec!["x".to_string()]], SetOperation::Untag));
    reads_back(InlineQueryData::continuous_tag_mode(vec![vec!["a".to_string(), "b".to_string()]], SetOperation::Tag));
    reads_back(InlineQueryData::continuous_tag_mode(vec![], SetOperation::Untag));
    reads_back(InlineQueryData::blacklist_query(vec!["gore".to_string(), "scat".to_string()]));
    reads_back(InlineQueryData::blacklist_query(vec![]));
    reads_back(InlineQueryData::search(vec!["male".to_string(), "solo".to_string()]));
    reads_back(InlineQueryData::search(vec![]));
    reads_back(InlineQueryData::search_emoji(vec!["solo".to_string()], vec![Emoji::new_from_string_single("🦊")]));
    reads_back(InlineQueryData::search_emoji(vec![], vec![Emoji::new_from_string_single("❤️"), Emoji::new_from_string_single("🦊")]));
    reads_back(InlineQueryData::sets("abc".to_string()));
    reads_back(InlineQueryData::overlapping_sets("abc".to_string()));
    reads_back(InlineQueryData::set_stickers_by_date("abc".to_string()));
    reads_back(InlineQueryData::all_set_tags("abc".to_string()));
    reads_back(InlineQueryData::similar("abc", SimilarityAspect::Color));
    reads_back(InlineQueryData::similar("abc", SimilarityAspect::Embedding));
    reads_back(InlineQueryData::most_duplicated_stickers());
    reads_back(InlineQueryData::most_used_emojis());
    reads_back(InlineQueryData::recommendations());
    reads_back(InlineQueryData::SetsByUserId { user_id: 1234 });
    reads_back(InlineQueryData::AddToUserSet { sticker_id: "abc".to_string(), set_title: Some("My set".to_string()) });
    reads_back(InlineQueryData::add_to_user_set("abc".to_string()));
}

#[test]
fn query_texts_that_do_not_read_back() {
    // The tag creator's text keeps the blank after its keyword.
    let q = InlineQueryData::tag_creator("lion".to_string(), TagKind::Main);
    assert_eq!(
        InlineQueryData::try_from(q.to_string()).unwrap(),
        InlineQueryData::tag_creator(" lion".to_string(), TagKind::Main)
    );
    // A search whose first tag is a keyword reads as that keyword's query.
    let q = InlineQueryData::search(vec!["(dup)".to_string()]);
    assert_eq!(InlineQueryData::try_from(q.to_string()).unwrap(), InlineQueryData::most_duplicated_stickers());
    // A negative user id has no digits-only text; the text reads as a search for itself.
    assert_eq!(
        InlineQueryData::try_from(InlineQueryData::SetsByUserId { user_id: -3 }.to_string()).unwrap(),
        InlineQueryData::search(vec!["(usersets:-3)".to_string()])
    );
}

#[test]
fn emoji_shown_in_qualified_form() {
    let heart = Emoji::new_from_string_single("❤️");
    assert_eq!(heart.to_string_without_variant(), "❤");
    assert_eq!(heart.to_string_with_variant(), "❤\u{fe0f}");
    assert_eq!(
        InlineQueryData::search_emoji(vec!["solo".to_string()], vec![heart]).to_string(),
        "❤\u{fe0f} solo"
    );
}
