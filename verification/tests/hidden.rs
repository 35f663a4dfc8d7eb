use fuzzle::errors::UserError;
use fuzzle::hidden::{
    add_new_tags_to_continuous_tag, new_sticker_set_custom_parser, report_set_custom_parser, TagList,
};
use std::str::FromStr;

fn strings(v: &[&str]) -> Vec<String> {
    v.iter().map(|s| s.to_string()).collect()
}

#[test]
fn tag_list_splits_at_commas() {
    assert_eq!(TagList::from_str("a,b c,,d").unwrap(), TagList(strings(&["a", "b c", "", "d"])));
    assert_eq!(TagList::parse("solo"), TagList(strings(&["solo"])));
    assert_eq!(TagList::parse(""), TagList(strings(&[""])));
    assert_eq!(TagList::parse("x,"), TagList(strings(&["x", ""])));
}

#[test]
fn new_sticker_set_arguments() {
    assert_eq!(
        new_sticker_set_custom_parser("abc-1_X  My cool set ").unwrap(),
        ("abc-1_X".to_string(), "My cool set ".to_string())
    );
    assert_eq!(
        new_sticker_set_custom_parser(" abc title"),
        Err(UserError::ParseError(0, " abc title".to_string()))
    );
    assert_eq!(
        new_sticker_set_custom_parser("abc+title"),
        Err(UserError::ParseError(3, "+title".to_string()))
    );
    assert_eq!(new_sticker_set_custom_parser("abc  "), Err(UserError::ParseError(5, "".to_string())));
}

#[test]
fn report_set_arguments() {
    let reasons: Vec<i64> = vec![-1, 0, 1, 2];
    assert_eq!(report_set_custom_parser("2 some_set", &reasons).unwrap(), (2, "some_set".to_string()));
    assert_eq!(report_set_custom_parser("-1\tset more", &reasons).unwrap(), (-1, "set".to_string()));
    assert_eq!(report_set_custom_parser("x set", &reasons), Err(UserError::ParseError(0, "x set".to_string())));
    assert_eq!(report_set_custom_parser("12set", &reasons), Err(UserError::ParseError(2, "set".to_string())));
    assert_eq!(report_set_custom_parser("1 ä", &reasons), Err(UserError::ParseError(2, "ä".to_string())));
    assert_eq!(
        report_set_custom_parser("999999 set", &reasons),
        Err(UserError::ParseError(0, "999999 set".to_string()))
    );
}

#[test]
fn continuous_tags_are_sorted_and_unique() {
    let r = add_new_tags_to_continuous_tag(
        strings(&["solo", "cute", "male"]),
        strings(&["angry", "cute", "zebra", "b"]),
        &strings(&["male", "zebra"]),
    );
    assert_eq!(r, strings(&["angry", "b", "cute", "solo"]));
    let r = add_new_tags_to_continuous_tag(vec![], strings(&["b", "a", "ab", "B"]), &vec![]);
    assert_eq!(r, strings(&["B", "a", "ab", "b"]));
}

#[test]
fn joined_tag_list_splits_back() {
    let tags = strings(&["dragon", "solo", "male"]);
    assert_eq!(TagList::parse(&tags.join(",")), TagList(tags));
}
