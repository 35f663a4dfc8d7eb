//! The SQL text and bind values of the sticker search: stickers whose file
//! has all wanted tags and none of the unwanted ones, optionally limited to
//! some emoji, in the newest-first or a seeded random order.
use vstd::prelude::*;
use crate::chars::push_str;
use vstd::std_specs::cmp::{PartialOrdIs, PartialOrdSpec};

verus! {

/// The order of search results.
#[derive(Clone, Copy, Debug, PartialEq, Eq)]
pub enum Order {
    LatestFirst,
    Random { seed: i32 },
}

/// The two values, the smaller first: `a` first where `a < b`, else `b`.
pub open spec fn min_max_spec<T: Ord>(a: T, b: T) -> (T, T) {
    if a.is_lt(&b) { (a, b) } else { (b, a) }
}

/// For a type whose order is total and agrees with `==`, the first of the
/// pair is not greater than the second, and the pair does not depend on the
/// order of the arguments.
pub proof fn lemma_min_max_ordered<T: Ord>(a: T, b: T)
    requires
        vstd::laws_cmp::obeys_cmp::<T>(),
        vstd::laws_eq::obeys_concrete_eq::<T>(),
    ensures
        min_max_spec(a, b).0.is_le(&min_max_spec(a, b).1),
        min_max_spec(a, b) == min_max_spec(b, a),
{
    reveal(vstd::laws_cmp::obeys_partial_cmp_spec_properties);
    reveal(vstd::laws_cmp::obeys_cmp_ord);
    reveal(vstd::laws_cmp::obeys_cmp_partial_ord);
    reveal(vstd::laws_eq::obeys_eq_spec_properties);
    reveal(vstd::laws_eq::obeys_concrete_eq);
    assert(a.partial_cmp_spec(&b) == Some(vstd::std_specs::cmp::OrdSpec::cmp_spec(&a, &b)));
    assert(b.partial_cmp_spec(&a) == Some(vstd::std_specs::cmp::OrdSpec::cmp_spec(&b, &a)));
    assert(vstd::std_specs::cmp::PartialEqSpec::eq_spec(&a, &b) <==> vstd::std_specs::cmp::PartialEqSpec::eq_spec(&b, &a));
}

/// The two values, the smaller first (where the values are not ordered
/// `a < b`, `b` comes first).
pub fn min_max<T: Ord>(a: T, b: T) -> (r: (T, T))
    ensures
        T::obeys_partial_cmp_spec() ==> r == min_max_spec(a, b),
        r == (a, b) || r == (b, a),
{
    if a < b {
        (a, b)
    } else {
        (b, a)
    }
}

/// A value bound to a `?` of the SQL text.
#[derive(Debug, Clone, PartialEq, Eq)]
pub enum SqlBind {
    Text(String),
    Integer(i32),
    BigInt(i64),
}

/// A bind value as a plain value.
pub enum SqlBindView {
    Text(Seq<char>),
    Integer(i32),
    BigInt(i64),
}

impl View for SqlBind {
    type V = SqlBindView;

    open spec fn view(&self) -> SqlBindView {
        match self {
            SqlBind::Text(t) => SqlBindView::Text(t@),
            SqlBind::Integer(n) => SqlBindView::Integer(*n),
            SqlBind::BigInt(n) => SqlBindView::BigInt(*n),
        }
    }
}

/// SQL text with its bind values, in the order of the `?`s.
#[derive(Debug, Clone, PartialEq, Eq)]
pub struct SqlQuery {
    pub sql: String,
    pub binds: Vec<SqlBind>,
}

/// The bind values by their views.
pub open spec fn binds_view(b: Seq<SqlBind>) -> Seq<SqlBindView> {
    b.map_values(|x: SqlBind| x@)
}

/// Text bind values, one per string.
pub open spec fn text_binds(list: Seq<String>) -> Seq<SqlBindView> {
    list.map_values(|t: String| SqlBindView::Text(t@))
}

/// `?, ` written `k` times.
pub open spec fn more_marks(k: nat) -> Seq<char>
    decreases k,
{
    if k == 0 {
        Seq::empty()
    } else {
        more_marks((k - 1) as nat) + "?, "@
    }
}

/// A parenthesized list of `n` placeholders: `(?)`, `(?, ?)`, `(?, ?, ?)`, ...
pub open spec fn sql_list(n: nat) -> Seq<char> {
    if n == 0 {
        Seq::empty()
    } else if n == 1 {
        "(?)"@
    } else {
        "(?, "@ + more_marks((n - 2) as nat) + "?)"@
    }
}

/// A search for stickers by tags, emoji and order.  Stickers must be tagged
/// to be found, even by emoji alone.
#[derive(Debug)]
pub struct StickerTagQuery {
    must: Vec<String>,
    must_not: Vec<String>,
    limit: Option<i64>,
    offset: Option<i64>,
    order: Option<Order>,
    emoji: Vec<String>,
}

/// A search as plain values.
pub struct StickerTagQueryView {
    pub must: Seq<String>,
    pub must_not: Seq<String>,
    pub limit: Option<i64>,
    pub offset: Option<i64>,
    pub order: Option<Order>,
    pub emoji: Seq<String>,
}

impl View for StickerTagQuery {
    type V = StickerTagQueryView;

    closed spec fn view(&self) -> StickerTagQueryView {
        StickerTagQueryView {
            must: self.must@,
            must_not: self.must_not@,
            limit: self.limit,
            offset: self.offset,
            order: self.order,
            emoji: self.emoji@,
        }
    }
}

/// The SQL text of a search.
pub open spec fn tag_query_sql(q: StickerTagQueryView) -> Seq<char> {
    let has_must = q.must.len() > 0;
    let has_must_not = q.must_not.len() > 0;
    "SELECT * FROM sticker "@
        + "WHERE sticker.sticker_file_id IN (SELECT sticker_file_id FROM sticker_file_tag GROUP BY sticker_file_id "@
        + (if has_must || has_must_not { "HAVING "@ } else { Seq::empty() })
        + (if has_must { "count(CASE WHEN tag IN "@ + sql_list(q.must.len()) + " THEN 1 END) = ?"@ } else { Seq::empty() })
        + (if has_must && has_must_not { " AND "@ } else { Seq::empty() })
        + (if has_must_not { "count(CASE WHEN tag IN "@ + sql_list(q.must_not.len()) + " THEN 1 END) = 0"@ } else { Seq::empty() })
        + ") "@
        + (if q.emoji.len() > 0 { "AND sticker.emoji IN "@ + sql_list(q.emoji.len()) + " "@ } else { Seq::empty() })
        + "GROUP BY sticker.sticker_file_id "@
        + "ORDER BY "@
        + (match q.order {
            Some(Order::Random { seed }) => "sin(rowid + ?) "@,
            _ => "rowid DESC "@,
        })
        + "LIMIT ? "@
        + "OFFSET ?"@
}

/// The SQL text of a search before its `ORDER BY`.
spec fn tag_query_head(q: StickerTagQueryView) -> Seq<char> {
    let has_must = q.must.len() > 0;
    let has_must_not = q.must_not.len() > 0;
    "SELECT * FROM sticker "@
        + "WHERE sticker.sticker_file_id IN (SELECT sticker_file_id FROM sticker_file_tag GROUP BY sticker_file_id "@
        + (if has_must || has_must_not { "HAVING "@ } else { Seq::empty() })
        + (if has_must { "count(CASE WHEN tag IN "@ + sql_list(q.must.len()) + " THEN 1 END) = ?"@ } else { Seq::empty() })
        + (if has_must && has_must_not { " AND "@ } else { Seq::empty() })
        + (if has_must_not { "count(CASE WHEN tag IN "@ + sql_list(q.must_not.len()) + " THEN 1 END) = 0"@ } else { Seq::empty() })
        + ") "@
        + (if q.emoji.len() > 0 { "AND sticker.emoji IN "@ + sql_list(q.emoji.len()) + " "@ } else { Seq::empty() })
        + "GROUP BY sticker.sticker_file_id "@
}

/// The order of a search's results depends on its order alone, not on its
/// tags or emoji: without a random order the newest stickers come first
/// (the SQL ends `ORDER BY rowid DESC LIMIT ? OFFSET ?`); a random order
/// ends `ORDER BY sin(rowid + ?) LIMIT ? OFFSET ?`.  Every search selects
/// from the stickers and ends with its limit and offset.
pub proof fn lemma_tag_query_order(q: StickerTagQueryView)
    ensures
        !(q.order matches Some(Order::Random { .. }))
            ==> exists|p: Seq<char>| tag_query_sql(q) == p + "ORDER BY rowid DESC LIMIT ? OFFSET ?"@,
        (q.order matches Some(Order::Random { .. }))
            ==> exists|p: Seq<char>| tag_query_sql(q) == p + "ORDER BY sin(rowid + ?) LIMIT ? OFFSET ?"@,
        exists|p: Seq<char>| tag_query_sql(q) == "SELECT * FROM sticker WHERE "@ + p,
{
    reveal_strlit("ORDER BY ");
    reveal_strlit("rowid DESC ");
    reveal_strlit("sin(rowid + ?) ");
    reveal_strlit("LIMIT ? ");
    reveal_strlit("OFFSET ?");
    reveal_strlit("ORDER BY rowid DESC LIMIT ? OFFSET ?");
    reveal_strlit("ORDER BY sin(rowid + ?) LIMIT ? OFFSET ?");
    reveal_strlit("SELECT * FROM sticker ");
    reveal_strlit("SELECT * FROM sticker WHERE ");
    reveal_strlit("WHERE sticker.sticker_file_id IN (SELECT sticker_file_id FROM sticker_file_tag GROUP BY sticker_file_id ");
    let h = tag_query_head(q);
    let sql = tag_query_sql(q);
    if q.order matches Some(Order::Random { .. }) {
        assert(sql == h + "ORDER BY "@ + "sin(rowid + ?) "@ + "LIMIT ? "@ + "OFFSET ?"@);
        assert(sql =~= h + "ORDER BY sin(rowid + ?) LIMIT ? OFFSET ?"@);
    } else {
        assert(sql == h + "ORDER BY "@ + "rowid DESC "@ + "LIMIT ? "@ + "OFFSET ?"@);
        assert(sql =~= h + "ORDER BY rowid DESC LIMIT ? OFFSET ?"@);
    }
    let rest = sql.skip(("SELECT * FROM sticker WHERE "@).len() as int);
    assert(sql =~= "SELECT * FROM sticker WHERE "@ + rest);
}

/// The bind values of a search, in the order of the `?`s: the wanted tags
/// and their count, the unwanted tags, the emoji, the seed of a random
/// order, the limit (10 where none was set) and the offset (0 where none).
pub open spec fn tag_query_binds(q: StickerTagQueryView) -> Seq<SqlBindView> {
    text_binds(q.must)
        + (if q.must.len() > 0 { seq![SqlBindView::Integer(q.must.len() as i32)] } else { Seq::empty() })
        + text_binds(q.must_not)
        + text_binds(q.emoji)
        + (match q.order {
            Some(Order::Random { seed }) => seq![SqlBindView::Integer(seed)],
            _ => Seq::empty(),
        })
        + seq![
            SqlBindView::BigInt(match q.limit { Some(l) => l, None => 10 }),
            SqlBindView::BigInt(match q.offset { Some(o) => o, None => 0 }),
        ]
}

/// Appends a placeholder list for `list` and binds its strings.
fn push_sql_list(sql: &mut String, binds: &mut Vec<SqlBind>, list: &Vec<String>)
    ensures
        final(sql)@ == old(sql)@ + sql_list(list@.len()),
        binds_view(final(binds)@) == binds_view(old(binds)@) + text_binds(list@),
{
    let n = list.len();
    if n == 0 {
        proof {
            assert(old(sql)@ + Seq::<char>::empty() =~= old(sql)@);
            assert(binds_view(old(binds)@) + text_binds(list@) =~= binds_view(old(binds)@));
        }
        return;
    }
    if n == 1 {
        push_str(sql, "(?)");
        binds.push(SqlBind::Text(list[0].clone()));
        proof {
            assert(binds_view(binds@) =~= binds_view(old(binds)@) + text_binds(list@));
        }
        return;
    }
    push_str(sql, "(?, ");
    binds.push(SqlBind::Text(list[0].clone()));
    proof {
        assert(more_marks(0) =~= Seq::<char>::empty());
        assert(sql@ =~= old(sql)@ + "(?, "@ + more_marks(0));
        assert(binds_view(binds@) =~= binds_view(old(binds)@) + text_binds(list@.take(1)));
    }
    let mut i: usize = 1;
    while i < n - 1
        invariant
            n == list@.len(),
            n >= 2,
            1 <= i <= n - 1,
            sql@ == old(sql)@ + "(?, "@ + more_marks((i - 1) as nat),
            binds_view(binds@) == binds_view(old(binds)@) + text_binds(list@.take(i as int)),
        decreases n - 1 - i,
    {
        push_str(sql, "?, ");
        let ghost prev = binds@;
        binds.push(SqlBind::Text(list[i].clone()));
        proof {
            assert(binds_view(binds@) =~= binds_view(prev).push(SqlBindView::Text(list@[i as int]@)));
            assert(text_binds(list@.take(i + 1)) =~= text_binds(list@.take(i as int)).push(SqlBindView::Text(list@[i as int]@)));
            assert(more_marks(i as nat) == more_marks((i - 1) as nat) + "?, "@);
            assert(sql@ =~= old(sql)@ + "(?, "@ + more_marks(i as nat));
            assert(list@.take(i + 1) =~= list@.take(i as int).push(list@[i as int]));
            assert(binds_view(binds@) =~= binds_view(old(binds)@) + text_binds(list@.take(i + 1)));
        }
        i = i + 1;
    }
    push_str(sql, "?)");
    let ghost prev = binds@;
    binds.push(SqlBind::Text(list[n - 1].clone()));
    proof {
        assert(binds_view(binds@) =~= binds_view(prev).push(SqlBindView::Text(list@[n - 1]@)));
        assert(text_binds(list@.take(n as int)) =~= text_binds(list@.take(n - 1)).push(SqlBindView::Text(list@[n - 1]@)));
        assert(sql@ =~= old(sql)@ + sql_list(list@.len()));
        assert(list@.take(n as int) =~= list@.take(n - 1).push(list@[n - 1]));
        assert(list@.take(n as int) =~= list@);
        assert(binds_view(binds@) =~= binds_view(old(binds)@) + text_binds(list@));
    }
}

impl StickerTagQuery {
    /// A search for stickers with all tags of `must` and none of `must_not`.
    pub fn new(must: Vec<String>, must_not: Vec<String>) -> (q: Self)
        ensures
            q@.must == must@,
            q@.must_not == must_not@,
            q@.limit is None,
            q@.offset is None,
            q@.order is None,
            q@.emoji == Seq::<String>::empty(),
    {
        StickerTagQuery { must, must_not, limit: None, offset: None, order: None, emoji: Vec::new() }
    }

    /// The search with at most `limit` results.
    pub fn limit(self, limit: i64) -> (q: Self)
        ensures
            q@ == (StickerTagQueryView { limit: Some(limit), ..self@ }),
    {
        StickerTagQuery { limit: Some(limit), ..self }
    }

    /// The search skipping the first `offset` results.
    pub fn offset(self, offset: i64) -> (q: Self)
        ensures
            q@ == (StickerTagQueryView { offset: Some(offset), ..self@ }),
    {
        StickerTagQuery { offset: Some(offset), ..self }
    }

    /// The search in the given order.
    pub fn order(self, order: Order) -> (q: Self)
        ensures
            q@ == (StickerTagQueryView { order: Some(order), ..self@ }),
    {
        StickerTagQuery { order: Some(order), ..self }
    }

    /// The search limited to stickers with one of the given emoji.
    pub fn emoji(self, emoji: Vec<String>) -> (q: Self)
        ensures
            q@ == (StickerTagQueryView { emoji: emoji@, ..self@ }),
    {
        StickerTagQuery { emoji, ..self }
    }

    /// The SQL text and bind values of the search.
    #[verifier::rlimit(40)]
    pub fn generate(&self) -> (r: SqlQuery)
        ensures
            r.sql@ == tag_query_sql(self@),
            binds_view(r.binds@) == tag_query_binds(self@),
    {
        let mut sql = String::new();
        let mut binds: Vec<SqlBind> = Vec::new();
        let has_must = self.must.len() > 0;
        let has_must_not = self.must_not.len() > 0;
        push_str(&mut sql, "SELECT * FROM sticker ");
        push_str(&mut sql, "WHERE sticker.sticker_file_id IN (SELECT sticker_file_id FROM sticker_file_tag GROUP BY sticker_file_id ");
        let ghost s1 = sql@;
        if has_must || has_must_not {
            push_str(&mut sql, "HAVING ");
        }
        let ghost s2 = sql@;
        let ghost b2 = binds_view(binds@);
        if has_must {
            push_str(&mut sql, "count(CASE WHEN tag IN ");
            push_sql_list(&mut sql, &mut binds, &self.must);
            push_str(&mut sql, " THEN 1 END) = ?");
            binds.push(SqlBind::Integer(self.must.len() as i32));
        }
        let ghost s3 = sql@;
        let ghost b3 = binds_view(binds@);
        proof {
            if has_must {
                assert(s3 =~= s2 + ("count(CASE WHEN tag IN "@ + sql_list(self@.must.len()) + " THEN 1 END) = ?"@));
                assert(b3 =~= b2 + text_binds(self@.must) + seq![SqlBindView::Integer(self@.must.len() as i32)]);
            } else {
                assert(s3 =~= s2 + Seq::<char>::empty());
                assert(self@.must =~= Seq::<String>::empty());
                assert(b3 =~= b2 + text_binds(self@.must) + Seq::<SqlBindView>::empty());
            }
        }
        if has_must && has_must_not {
            push_str(&mut sql, " AND ");
        }
        let ghost s4 = sql@;
        if has_must_not {
            push_str(&mut sql, "count(CASE WHEN tag IN ");
            push_sql_list(&mut sql, &mut binds, &self.must_not);
            push_str(&mut sql, " THEN 1 END) = 0");
        }
        let ghost s5 = sql@;
        let ghost b5 = binds_view(binds@);
        proof {
            if has_must_not {
                assert(s5 =~= s4 + ("count(CASE WHEN tag IN "@ + sql_list(self@.must_not.len()) + " THEN 1 END) = 0"@));
            } else {
                assert(s5 =~= s4 + Seq::<char>::empty());
                assert(self@.must_not =~= Seq::<String>::empty());
            }
            assert(b5 =~= b3 + text_binds(self@.must_not));
        }
        push_str(&mut sql, ") ");
        let ghost s6 = sql@;
        if self.emoji.len() > 0 {
            push_str(&mut sql, "AND sticker.emoji IN ");
            push_sql_list(&mut sql, &mut binds, &self.emoji);
            push_str(&mut sql, " ");
        }
        let ghost s7 = sql@;
        let ghost b7 = binds_view(binds@);
        proof {
            if self@.emoji.len() > 0 {
                assert(s7 =~= s6 + ("AND sticker.emoji IN "@ + sql_list(self@.emoji.len()) + " "@));
            } else {
                assert(s7 =~= s6 + Seq::<char>::empty());
                assert(self@.emoji =~= Seq::<String>::empty());
            }
            assert(b7 =~= b5 + text_binds(self@.emoji));
        }
        push_str(&mut sql, "GROUP BY sticker.sticker_file_id ");
        push_str(&mut sql, "ORDER BY ");
        let ghost s8 = sql@;
        match self.order {
            Some(Order::Random { seed }) => {
                push_str(&mut sql, "sin(rowid + ?");
                binds.push(SqlBind::Integer(seed));
                push_str(&mut sql, ") ");
                proof {
                    reveal_strlit("sin(rowid + ?");
                    reveal_strlit(") ");
                    reveal_strlit("sin(rowid + ?) ");
                    assert("sin(rowid + ?"@ + ") "@ =~= "sin(rowid + ?) "@);
                    assert(sql@ =~= s8 + "sin(rowid + ?) "@);
                }
            },
            _ => {
                push_str(&mut sql, "rowid DESC ");
            },
        }
        let ghost b9 = binds_view(binds@);
        proof {
            match self@.order {
                Some(Order::Random { seed }) => {
                    assert(b9 =~= b7 + seq![SqlBindView::Integer(seed)]);
                },
                _ => {
                    assert(b9 =~= b7 + Seq::<SqlBindView>::empty());
                },
            }
        }
        push_str(&mut sql, "LIMIT ? ");
        let limit = match self.limit {
            Some(l) => l,
            None => 10,
        };
        binds.push(SqlBind::BigInt(limit));
        push_str(&mut sql, "OFFSET ?");
        let offset = match self.offset {
            Some(o) => o,
            None => 0,
        };
        binds.push(SqlBind::BigInt(offset));
        proof {
            assert(b2 =~= Seq::<SqlBindView>::empty());
            assert(binds_view(binds@) =~= b9 + seq![SqlBindView::BigInt(limit), SqlBindView::BigInt(offset)]);
            assert(binds_view(binds@) =~= tag_query_binds(self@));
            assert(s1 =~= "SELECT * FROM sticker "@
                + "WHERE sticker.sticker_file_id IN (SELECT sticker_file_id FROM sticker_file_tag GROUP BY sticker_file_id "@);
            assert(sql@ =~= tag_query_sql(self@));
        }
        SqlQuery { sql, binds }
    }
}

} // verus!
