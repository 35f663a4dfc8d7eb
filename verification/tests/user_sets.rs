use fuzzle::user_sets::{create_set_command, set_command, set_description, user_sets_to_offer};

#[test]
fn user_sets_filtered_by_lowercase_title() {
    let sets = vec![
        ("FoxPack_by_bot".to_string(), Some("My Foxes".to_string())),
        ("wolves_by_bot".to_string(), None),
        ("misc_by_bot".to_string(), Some("FOX friends".to_string())),
    ];
    assert_eq!(user_sets_to_offer(&sets, &Some("fOx".to_string())), vec![0, 2]);
    assert_eq!(user_sets_to_offer(&sets, &None), vec![0, 1, 2]);
    assert_eq!(user_sets_to_offer(&sets, &Some("cat".to_string())), Vec::<usize>::new());
}

#[test]
fn user_sets_capped() {
    let sets: Vec<(String, Option<String>)> = (0..60).map(|i| (format!("set{i}"), None)).collect();
    let offered = user_sets_to_offer(&sets, &None);
    assert_eq!(offered.len(), 49);
    assert_eq!(offered[48], 48);
}

#[test]
fn user_set_commands() {
    assert_eq!(set_command("s1", "abc", &None), "/addsticker s1 abc");
    assert_eq!(set_command("s1", "abc", &Some("xyz".to_string())), "/removesticker s1 xyz");
    assert_eq!(set_description(true), "❌ Remove from this set");
    assert_eq!(set_description(false), "✅ Add to this set");
    assert_eq!(create_set_command("abc", &None), "/createset abc Stickers");
    assert_eq!(create_set_command("abc", &Some("Foxes".to_string())), "/createset abc Foxes");
}
