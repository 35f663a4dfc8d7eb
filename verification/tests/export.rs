use fuzzle::export::{export_data, export_files, group_relation, ExportedStickerFile};

fn pairs(v: &[(&str, &str)]) -> Vec<(String, String)> {
    v.iter().map(|(a, b)| (a.to_string(), b.to_string())).collect()
}

fn sorted<T: Ord + Clone>(mut v: Vec<T>) -> Vec<T> {
    v.sort();
    v
}

#[test]
fn sticker_file_collects_stickers_and_tags() {
    let mut f = ExportedStickerFile::new();
    f.add_sticker("s1".to_string());
    f.add_tag("cute".to_string());
    f.add_sticker("s2".to_string());
    assert_eq!(f.sticker_ids, vec!["s1".to_string(), "s2".to_string()]);
    assert_eq!(f.tags, vec!["cute".to_string()]);
}

#[test]
fn sets_are_grouped_by_name() {
    let groups = group_relation(&pairs(&[("set_a", "s1"), ("set_b", "s2"), ("set_a", "s3")]), true);
    assert_eq!(
        sorted(groups),
        vec![
            ("set_a".to_string(), vec!["s1".to_string(), "s3".to_string()]),
            ("set_b".to_string(), vec!["s2".to_string()]),
        ]
    );
    assert!(group_relation(&vec![], true).is_empty());
}

#[test]
fn files_take_stickers_and_tags() {
    let files = export_files(
        &pairs(&[("s1", "f1"), ("s2", "f1"), ("s3", "f2")]),
        &pairs(&[("f1", "cute"), ("f3", "angry"), ("f1", "solo")]),
    );
    let mut got: Vec<(String, Vec<String>, Vec<String>)> =
        files.into_iter().map(|(k, f)| (k, f.sticker_ids, f.tags)).collect();
    got.sort();
    assert_eq!(
        got,
        vec![
            ("f1".to_string(), vec!["s1".to_string(), "s2".to_string()], vec!["cute".to_string(), "solo".to_string()]),
            ("f2".to_string(), vec!["s3".to_string()], vec![]),
            ("f3".to_string(), vec![], vec!["angry".to_string()]),
        ]
    );
}

#[test]
fn export_holds_sets_and_files() {
    let d = export_data(
        &pairs(&[("set", "s1")]),
        &pairs(&[("s1", "f1")]),
        &pairs(&[("f1", "cute")]),
    );
    assert_eq!(d.sets, vec![("set".to_string(), vec!["s1".to_string()])]);
    assert_eq!(d.files.len(), 1);
    assert_eq!(d.files[0].sticker_ids, vec!["s1".to_string()]);
    assert_eq!(d.files[0].tags, vec!["cute".to_string()]);
}
