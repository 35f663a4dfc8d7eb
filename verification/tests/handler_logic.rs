use fuzzle::emoji::Emoji;
use fuzzle::errors::UserError;
use fuzzle::handler_logic::{
    create_sticker_name, emoji_search_command, get_sticker_set_name_from_url, sticker_set_name_from_link,
    tags_that_should_be_removed, treat_missing_tags_as_errors, UrlParts,
};

fn strings(v: &[&str]) -> Vec<String> {
    v.iter().map(|s| s.to_string()).collect()
}

#[test]
fn sticker_file_names() {
    assert_eq!(create_sticker_name("stickers/file_12.webp".to_string()), "sticker.webp");
    assert_eq!(create_sticker_name("a.b.tgs".to_string()), "sticker.tgs");
    assert_eq!(create_sticker_name("noext".to_string()), "sticker.bin");
    assert_eq!(create_sticker_name("dir.x/file".to_string()), "sticker.x/file");
    assert_eq!(create_sticker_name("trailing.".to_string()), "sticker.");
}

#[test]
fn removed_continuous_tags() {
    let r = tags_that_should_be_removed(
        "canine".to_string(),
        &strings(&["wolf", "cat", "dog"]),
        &vec![Some(strings(&["canine", "mammal"])), Some(strings(&["felid"])), None],
    );
    assert_eq!(r, strings(&["wolf", "canine"]));
    assert_eq!(tags_that_should_be_removed("x".to_string(), &vec![], &vec![]), strings(&["x"]));
}

#[test]
fn missing_tags() {
    let all = vec![("a".to_string(), Some("alpha".to_string())), ("b".to_string(), Some("beta".to_string()))];
    assert_eq!(treat_missing_tags_as_errors(all).unwrap(), strings(&["alpha", "beta"]));
    let some = vec![
        ("a".to_string(), Some("alpha".to_string())),
        ("x".to_string(), None),
        ("y".to_string(), None),
    ];
    assert_eq!(treat_missing_tags_as_errors(some), Err(UserError::TagsNotFound(strings(&["x", "y"]))));
    assert_eq!(treat_missing_tags_as_errors(vec![]).unwrap(), Vec::<String>::new());
}

#[test]
fn emoji_message() {
    assert_eq!(emoji_search_command(" 🦊\n"), Some(Emoji::new_from_string_single("🦊")));
    assert_eq!(emoji_search_command("❤️"), Some(Emoji::new_from_string_single("❤")));
    assert_eq!(emoji_search_command("🦊 🦊"), None);
    assert_eq!(emoji_search_command("fox"), None);
    assert_eq!(emoji_search_command(""), None);
}

#[test]
fn sticker_set_links() {
    assert_eq!(sticker_set_name_from_link("https://t.me/addstickers/FuzzleBot"), Some("FuzzleBot".to_string()));
    assert_eq!(sticker_set_name_from_link("https://t.me/addstickers/Some_set//"), Some("Some_set".to_string()));
    assert_eq!(
        sticker_set_name_from_link("https://t.me/addstickers//addstickers/x?y=1"),
        Some("x".to_string())
    );
    assert_eq!(sticker_set_name_from_link("https://example.com/addstickers/x"), None);
    assert_eq!(sticker_set_name_from_link("https://t.me/joinchat/x"), None);
    assert_eq!(sticker_set_name_from_link("not a url"), None);
    assert_eq!(
        get_sticker_set_name_from_url(&UrlParts { host: Some("t.me".to_string()), path: "/addstickers/".to_string() }),
        Some(String::new())
    );
}
