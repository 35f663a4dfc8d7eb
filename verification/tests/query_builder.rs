use fuzzle::query_builder::{min_max, Order, SqlBind, SqlQuery, StickerTagQuery};

/// The query as a debug listing shows it: the SQL, then the bind values.
fn debug_text(q: &SqlQuery) -> String {
    let binds: Vec<String> = q
        .binds
        .iter()
        .map(|b| match b {
            SqlBind::Text(t) => format!("{:?}", t),
            SqlBind::Integer(n) => format!("{:?}", n),
            SqlBind::BigInt(n) => format!("{:?}", n),
        })
        .collect();
    format!("{} -- binds: [{}]", q.sql, binds.join(", "))
}

#[test]
fn test_query_builder_1() {
    let query = StickerTagQuery::new(vec!["solo".into()], vec!["meta_sticker".into()])
        .limit(100)
        .offset(200)
        .order(Order::LatestFirst);
    assert_eq!(&debug_text(&query.generate()), "SELECT * FROM sticker WHERE sticker.sticker_file_id IN (SELECT sticker_file_id FROM sticker_file_tag GROUP BY sticker_file_id HAVING count(CASE WHEN tag IN (?) THEN 1 END) = ? AND count(CASE WHEN tag IN (?) THEN 1 END) = 0) GROUP BY sticker.sticker_file_id ORDER BY rowid DESC LIMIT ? OFFSET ? -- binds: [\"solo\", 1, \"meta_sticker\", 100, 200]");
}

#[test]
fn test_query_builder_2() {
    let query = StickerTagQuery::new(
        vec!["solo".into(), "heart_symbol".into()],
        vec!["meta_sticker".into()],
    )
    .limit(100)
    .offset(200)
    .emoji(vec!["🤍".to_string(), "💚".to_string()])
    .order(Order::Random { seed: 42 });
    assert_eq!(&debug_text(&query.generate()), "SELECT * FROM sticker WHERE sticker.sticker_file_id IN (SELECT sticker_file_id FROM sticker_file_tag GROUP BY sticker_file_id HAVING count(CASE WHEN tag IN (?, ?) THEN 1 END) = ? AND count(CASE WHEN tag IN (?) THEN 1 END) = 0) AND sticker.emoji IN (?, ?) GROUP BY sticker.sticker_file_id ORDER BY sin(rowid + ?) LIMIT ? OFFSET ? -- binds: [\"solo\", \"heart_symbol\", 2, \"meta_sticker\", \"🤍\", \"💚\", 42, 100, 200]");
}

#[test]
fn test_query_builder_3() {
    let query = StickerTagQuery::new(vec![], vec!["meta_sticker".into()])
        .limit(100)
        .offset(200)
        .emoji(vec!["🤍".to_string()])
        .order(Order::Random { seed: 42 });
    assert_eq!(&debug_text(&query.generate()), "SELECT * FROM sticker WHERE sticker.sticker_file_id IN (SELECT sticker_file_id FROM sticker_file_tag GROUP BY sticker_file_id HAVING count(CASE WHEN tag IN (?) THEN 1 END) = 0) AND sticker.emoji IN (?) GROUP BY sticker.sticker_file_id ORDER BY sin(rowid + ?) LIMIT ? OFFSET ? -- binds: [\"meta_sticker\", \"🤍\", 42, 100, 200]");
}

#[test]
fn test_query_builder_4() {
    let query = StickerTagQuery::new(vec![], vec![])
        .limit(100)
        .offset(200)
        .emoji(vec!["🤍".to_string(), "💚".to_string()])
        .order(Order::Random { seed: 42 });
    assert_eq!(&debug_text(&query.generate()), "SELECT * FROM sticker WHERE sticker.sticker_file_id IN (SELECT sticker_file_id FROM sticker_file_tag GROUP BY sticker_file_id ) AND sticker.emoji IN (?, ?) GROUP BY sticker.sticker_file_id ORDER BY sin(rowid + ?) LIMIT ? OFFSET ? -- binds: [\"🤍\", \"💚\", 42, 100, 200]");
}

#[test]
fn test_query_builder_5() {
    let query = StickerTagQuery::new(vec![], vec!["meta_sticker".to_string()])
        .limit(100)
        .offset(200)
        .order(Order::Random { seed: 42 });
    assert_eq!(&debug_text(&query.generate()), "SELECT * FROM sticker WHERE sticker.sticker_file_id IN (SELECT sticker_file_id FROM sticker_file_tag GROUP BY sticker_file_id HAVING count(CASE WHEN tag IN (?) THEN 1 END) = 0) GROUP BY sticker.sticker_file_id ORDER BY sin(rowid + ?) LIMIT ? OFFSET ? -- binds: [\"meta_sticker\", 42, 100, 200]");
}

#[test]
fn query_builder_defaults_and_long_lists() {
    let query = StickerTagQuery::new(vec!["a".into(), "b".into(), "c".into()], vec![]);
    assert_eq!(&debug_text(&query.generate()), "SELECT * FROM sticker WHERE sticker.sticker_file_id IN (SELECT sticker_file_id FROM sticker_file_tag GROUP BY sticker_file_id HAVING count(CASE WHEN tag IN (?, ?, ?) THEN 1 END) = ?) GROUP BY sticker.sticker_file_id ORDER BY rowid DESC LIMIT ? OFFSET ? -- binds: [\"a\", \"b\", \"c\", 3, 10, 0]");
}

#[test]
fn min_max_orders_two_values() {
    assert_eq!(min_max(3, 1), (1, 3));
    assert_eq!(min_max(1, 3), (1, 3));
    assert_eq!(min_max("b".to_string(), "a".to_string()), ("a".to_string(), "b".to_string()));
    assert_eq!(min_max(2, 2), (2, 2));
}
