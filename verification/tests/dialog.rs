use fuzzle::dialog::{
    check_tag_creation, TagCreationError, alias_added, alias_removed, blacklist_with_tag, blacklist_without_tag, continuous_tag_lists,
    continuous_tag_lists_without, tag_creator_with_id, toggle_recommend_sticker,
};
use fuzzle::inline_data::TagKind;
use fuzzle::model::Category;

fn strings(v: &[&str]) -> Vec<String> {
    v.iter().map(|s| s.to_string()).collect()
}

#[test]
fn recommender_toggle_moves_between_lists() {
    let (pos, neg) = toggle_recommend_sticker(strings(&["a"]), strings(&["b", "c"]), "b".to_string(), true);
    assert_eq!(pos, strings(&["a", "b"]));
    assert_eq!(neg, strings(&["c"]));
    let (pos, neg) = toggle_recommend_sticker(pos, neg, "b".to_string(), true);
    assert_eq!(pos, strings(&["a"]));
    assert_eq!(neg, strings(&["c"]));
    let (pos, neg) = toggle_recommend_sticker(pos, neg, "a".to_string(), false);
    assert_eq!(pos, Vec::<String>::new());
    assert_eq!(neg, strings(&["c", "a"]));
}

#[test]
fn blacklist_add_moves_tag_to_end_once() {
    let bl = strings(&["gore", "vore", "gore"]);
    assert_eq!(blacklist_with_tag(&bl, "gore".to_string()), strings(&["vore", "gore"]));
    assert_eq!(blacklist_with_tag(&bl, "scat".to_string()), strings(&["gore", "vore", "gore", "scat"]));
    assert_eq!(blacklist_without_tag(&bl, &"gore".to_string()), strings(&["vore"]));
}

#[test]
fn continuous_lists_keep_new_add_tags() {
    let (add, remove) = continuous_tag_lists(
        strings(&["solo", "fox"]),
        strings(&["male", "duo"]),
        strings(&["male", "canine"]),
        strings(&["fox", "wolf"]),
    );
    assert_eq!(remove, strings(&["duo", "fox", "wolf"]));
    assert_eq!(add, strings(&["canine", "male", "solo"]));
}

#[test]
fn continuous_lists_without_tag_and_implying_tags() {
    let (add, remove) = continuous_tag_lists_without(
        "canine".to_string(),
        strings(&["fox", "solo", "canine"]),
        strings(&["wolf"]),
        &vec![Some(strings(&["canine", "mammal"])), None, Some(strings(&["mammal"]))],
        &vec![Some(strings(&["canine"]))],
    );
    assert_eq!(add, strings(&["solo"]));
    assert_eq!(remove, Vec::<String>::new());
}

#[test]
fn tag_creator_aliases() {
    assert_eq!(alias_added(strings(&["a"]), "b".to_string()), strings(&["a", "b"]));
    assert_eq!(alias_added(strings(&["a"]), "a".to_string()), strings(&["a"]));
    assert_eq!(alias_removed(&strings(&["a", "b", "a"]), &"a".to_string()), strings(&["b"]));
    assert_eq!(
        tag_creator_with_id("old".to_string(), strings(&["x"]), "new".to_string(), TagKind::Main),
        ("new".to_string(), strings(&["x"]))
    );
    assert_eq!(
        tag_creator_with_id("old".to_string(), strings(&["x"]), "y".to_string(), TagKind::Alias),
        ("old".to_string(), strings(&["x", "y"]))
    );
}

#[test]
fn tag_creation_checks() {
    use_check();
}

fn use_check() {
    let ex = strings(&["s1", "s2"]);
    let id = "fox_artist".to_string();
    assert_eq!(
        check_tag_creation(&strings(&["s1"]), &id, &vec![], Some(Category::Artist), true, false),
        Err(TagCreationError::TooFewExamples)
    );
    assert_eq!(
        check_tag_creation(&ex, &id, &strings(&["fox_artist"]), Some(Category::Artist), true, false),
        Err(TagCreationError::AliasIsMainTag)
    );
    assert_eq!(check_tag_creation(&ex, &id, &vec![], Some(Category::Artist), true, false), Ok(Category::Artist));
    assert_eq!(
        check_tag_creation(&ex, &id, &vec![], Some(Category::Artist), false, true),
        Err(TagCreationError::ArtistWithoutChannel)
    );
    assert_eq!(
        check_tag_creation(&ex, &id, &vec![], Some(Category::Character), true, false),
        Err(TagCreationError::CharacterWithoutUser)
    );
    assert_eq!(
        check_tag_creation(&ex, &id, &vec![], Some(Category::Meta), true, true),
        Err(TagCreationError::UnsupportedCategory(Category::Meta))
    );
    assert_eq!(check_tag_creation(&ex, &id, &vec![], None, true, true), Err(TagCreationError::NoCategory));
    assert_eq!(TagCreationError::NoCategory.message(), "Pick one of the categories: artist, character");
}
