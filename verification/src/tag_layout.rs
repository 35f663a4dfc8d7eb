//! The layout of the tagging keyboard of a sticker: which tag goes into
//! which row, and which button each tag gets.
//!
//! What the tag manager knows of a tag comes in as plain values, one per
//! tag: the rank of a character-count tag among the counts, whether a tag
//! is a rating, and the emoji of a tag's category.
use vstd::prelude::*;
use vstd::multiset::Multiset;
use crate::callback_data::{CallbackDataView, TagOperationView};
use crate::chars::lists;
use crate::errors::byte_len;
use crate::inline_data::InlineQueryView;
use crate::keyboard::{ActionView, sticker_tabs_view, StickerTab, contains_text, callback_button, query_button, max_tag_len, ButtonView, Button, layout_view, row_view, tag_to_button, can_insert_tag_in_column};

verus! {

/// Whether `tag` fits into a row that holds `row`, each tag with an icon of
/// `icon_width` bytes.
pub open spec fn fits(row: Seq<Seq<char>>, tag: Seq<char>, icon_width: int) -> bool {
    &&& forall|i: int| 0 <= i < row.len() ==> byte_len(#[trigger] row[i]) + icon_width <= max_tag_len(row.len() + 1int)
    &&& byte_len(tag) + icon_width <= max_tag_len(row.len() + 1int)
}

/// `x` inserted into `d`, which runs from the longest tag to the shortest,
/// before the first tag that is not longer than `x`.
pub open spec fn insert_by_len(d: Seq<Seq<char>>, x: Seq<char>) -> Seq<Seq<char>>
    decreases d.len(),
{
    if d.len() == 0 {
        seq![x]
    } else if byte_len(d[0]) <= byte_len(x) {
        seq![x] + d
    } else {
        seq![d[0]] + insert_by_len(d.drop_first(), x)
    }
}

/// The tags from the longest to the shortest (in bytes); of tags of the
/// same length, the later one comes first.
pub open spec fn longest_first(s: Seq<Seq<char>>) -> Seq<Seq<char>>
    decreases s.len(),
{
    if s.len() == 0 {
        Seq::empty()
    } else {
        insert_by_len(longest_first(s.drop_last()), s.last())
    }
}

/// `tag` added to the first row that it fits into (with a 3-byte icon), or
/// in a new row at the end.
pub open spec fn place(rows: Seq<Seq<Seq<char>>>, tag: Seq<char>) -> Seq<Seq<Seq<char>>>
    decreases rows.len(),
{
    if rows.len() == 0 {
        seq![seq![tag]]
    } else if fits(rows[0], tag, 3) {
        rows.update(0, rows[0].push(tag))
    } else {
        seq![rows[0]] + place(rows.drop_first(), tag)
    }
}

/// The tags placed one after another.
pub open spec fn pack(rows: Seq<Seq<Seq<char>>>, tags: Seq<Seq<char>>) -> Seq<Seq<Seq<char>>>
    decreases tags.len(),
{
    if tags.len() == 0 {
        rows
    } else {
        place(pack(rows, tags.drop_last()), tags.last())
    }
}

/// `tag` added to the last row where it fits there (with no icon), else in
/// a new row.
pub open spec fn append_last(rows: Seq<Seq<Seq<char>>>, tag: Seq<char>) -> Seq<Seq<Seq<char>>> {
    if rows.len() > 0 && fits(rows.last(), tag, 0) {
        rows.update(rows.len() - 1, rows.last().push(tag))
    } else {
        rows.push(seq![tag])
    }
}

/// The tags appended one after another.
pub open spec fn append_all(rows: Seq<Seq<Seq<char>>>, tags: Seq<Seq<char>>) -> Seq<Seq<Seq<char>>>
    decreases tags.len(),
{
    if tags.len() == 0 {
        rows
    } else {
        append_last(append_all(rows, tags.drop_last()), tags.last())
    }
}

/// The first `n` suggestions that are neither a count nor a rating tag and
/// that the sticker does not have yet.
pub open spec fn kept_suggestions(suggested: Seq<Seq<char>>, special: Seq<bool>, current: Seq<String>, n: int) -> Seq<Seq<char>>
    decreases n,
{
    if n <= 0 {
        Seq::empty()
    } else {
        let before = kept_suggestions(suggested, special, current, n - 1);
        if !special[n - 1] && !lists(current, suggested[n - 1]) {
            before.push(suggested[n - 1])
        } else {
            before
        }
    }
}

/// Among the first `n` tags, the first with the least count rank.
pub open spec fn least_count(ranks: Seq<Option<u8>>, n: int) -> Option<int>
    decreases n,
{
    if n <= 0 {
        None
    } else {
        let p = least_count(ranks, n - 1);
        if ranks[n - 1] is Some && (p is None || ranks[n - 1]->0 < ranks[p->0]->0) {
            Some(n - 1)
        } else {
            p
        }
    }
}

/// Among the first `n` tags, the first rating tag.
pub open spec fn first_rating(is_rating: Seq<bool>, n: int) -> Option<int>
    decreases n,
{
    if n <= 0 {
        None
    } else {
        match first_rating(is_rating, n - 1) {
            Some(j) => Some(j),
            None => if is_rating[n - 1] { Some(n - 1) } else { None },
        }
    }
}

/// Whether the sticker has both a count and a rating tag.
pub open spec fn tagging_complete(ranks: Seq<Option<u8>>, is_rating: Seq<bool>, n: int) -> bool {
    least_count(ranks, n) is Some && first_rating(is_rating, n) is Some
}

/// The tags of the keyboard, row by row.  Where the sticker lacks a count
/// or a rating tag, two rows: its count tag (or all count tags) and its
/// rating tag (or all rating tags).  Else its tags, longest first, each in
/// the first row it fits into; an empty row; and the kept suggestions,
/// each in the last row where it fits there, else in a new row.
pub open spec fn tag_rows(
    current: Seq<String>,
    suggested: Seq<Seq<char>>,
    ranks: Seq<Option<u8>>,
    is_rating: Seq<bool>,
    special: Seq<bool>,
    all_count: Seq<Seq<char>>,
    all_rating: Seq<Seq<char>>,
) -> Seq<Seq<Seq<char>>> {
    let n = current.len() as int;
    if tagging_complete(ranks, is_rating, n) {
        let present = longest_first(current.map_values(|t: String| t@));
        append_all(pack(Seq::empty(), present).push(Seq::empty()), kept_suggestions(suggested, special, current, suggested.len() as int))
    } else {
        seq![
            match least_count(ranks, n) { Some(j) => seq![current[j]@], None => all_count },
            match first_rating(is_rating, n) { Some(j) => seq![current[j]@], None => all_rating },
        ]
    }
}

/// The first index at or after `i` where `v` holds `t`, or -1.
pub open spec fn index_from(v: Seq<String>, t: Seq<char>, i: int) -> int
    decreases v.len() - i,
{
    if i < 0 || i >= v.len() {
        -1
    } else if v[i]@ == t {
        i
    } else {
        index_from(v, t, i + 1)
    }
}

/// The emoji of a tag that the sticker has: that of its category, else ✅.
pub open spec fn emoji_text(current: Seq<String>, emojis: Seq<Option<String>>, t: Seq<char>) -> Seq<char> {
    let j = index_from(current, t, 0);
    if 0 <= j < emojis.len() {
        match emojis[j] {
            Some(e) => e@,
            None => "✅"@,
        }
    } else {
        "✅"@
    }
}

/// The button of a tag: a tag that the sticker has shows its emoji and
/// removes it; any other tag shows as it is and adds it.
pub open spec fn tag_button(current: Seq<String>, emojis: Seq<Option<String>>, id: Seq<char>, t: Seq<char>) -> ButtonView {
    if lists(current, t) {
        callback_button(emoji_text(current, emojis, t) + seq![' '] + t, CallbackDataView::Sticker(id, Some(TagOperationView::Untag(t))))
    } else {
        callback_button(t, CallbackDataView::Sticker(id, Some(TagOperationView::Tag(t))))
    }
}

/// The rows of tags as rows of buttons.
pub open spec fn button_rows(rows: Seq<Seq<Seq<char>>>, current: Seq<String>, emojis: Seq<Option<String>>, id: Seq<char>) -> Seq<Seq<ButtonView>> {
    rows.map_values(|row: Seq<Seq<char>>| row.map_values(|t: Seq<char>| tag_button(current, emojis, id, t)))
}

/// The button that locks or unlocks bulk tagging of the sticker.
pub open spec fn lock_button(id: Seq<char>, locked: bool) -> ButtonView {
    if locked {
        callback_button("🔒 Bulk Tagging Locked"@, CallbackDataView::SetLock(id, false))
    } else {
        callback_button("🔓 Bulk Tagging Unlocked"@, CallbackDataView::SetLock(id, true))
    }
}

/// The tagging keyboard: the sticker's tabs with the tags tab open, then,
/// where the sticker lacks a count or a rating tag, only the rows of tags.  Else the rows of tags; a button that searches
/// more tags for the sticker; the lock button where tagging is locked or
/// the sticker is a `meta_sticker`; and the exit button in continuous tag
/// mode.
pub open spec fn tagging_view(
    current: Seq<String>,
    id: Seq<char>,
    suggested: Seq<Seq<char>>,
    locked: bool,
    continuous: bool,
    ranks: Seq<Option<u8>>,
    is_rating: Seq<bool>,
    special: Seq<bool>,
    all_count: Seq<Seq<char>>,
    all_rating: Seq<Seq<char>>,
    emojis: Seq<Option<String>>,
) -> Seq<Seq<ButtonView>> {
    let rows = seq![sticker_tabs_view(StickerTab::Tags, id)]
        + button_rows(tag_rows(current, suggested, ranks, is_rating, special, all_count, all_rating), current, emojis, id);
    if tagging_complete(ranks, is_rating, current.len() as int) {
        rows
            + seq![seq![query_button("Add more tags to this sticker"@, InlineQueryView::SearchTagsForSticker(Seq::empty(), id))]]
            + (if locked || lists(current, "meta_sticker"@) { seq![seq![lock_button(id, locked)]] } else { Seq::empty() })
            + (if continuous { seq![seq![callback_button("❌ Exit Continuous Tag Mode"@, CallbackDataView::ExitDialog)]] } else { Seq::empty() })
    } else {
        rows
    }
}

/// All the tags of the rows, counted with repeats.
pub open spec fn rows_tags(rows: Seq<Seq<Seq<char>>>) -> Multiset<Seq<char>>
    decreases rows.len(),
{
    if rows.len() == 0 {
        Multiset::empty()
    } else {
        rows[0].to_multiset().add(rows_tags(rows.drop_first()))
    }
}

proof fn lemma_insert_by_len_tags(d: Seq<Seq<char>>, x: Seq<char>)
    ensures
        insert_by_len(d, x).to_multiset() == d.to_multiset().insert(x),
    decreases d.len(),
{
    broadcast use vstd::seq_lib::group_to_multiset_ensures, vstd::multiset::group_multiset_axioms;
    if d.len() == 0 {
        assert(seq![x] =~= Seq::<Seq<char>>::empty().push(x));
        assert(d =~= Seq::<Seq<char>>::empty());
    } else if byte_len(d[0]) <= byte_len(x) {
        assert(seq![x] + d =~= d.insert(0, x));
    } else {
        let rest = d.drop_first();
        lemma_insert_by_len_tags(rest, x);
        assert(seq![d[0]] + insert_by_len(rest, x) =~= insert_by_len(rest, x).insert(0, d[0]));
        assert(d =~= rest.insert(0, d[0]));
        assert(insert_by_len(d, x).to_multiset() =~= d.to_multiset().insert(x));
    }
}

proof fn lemma_longest_first_tags(s: Seq<Seq<char>>)
    ensures
        longest_first(s).to_multiset() == s.to_multiset(),
    decreases s.len(),
{
    broadcast use vstd::seq_lib::group_to_multiset_ensures, vstd::multiset::group_multiset_axioms;
    if s.len() > 0 {
        lemma_longest_first_tags(s.drop_last());
        lemma_insert_by_len_tags(longest_first(s.drop_last()), s.last());
        assert(s.drop_last().push(s.last()) =~= s);
    } else {
        assert(s =~= Seq::<Seq<char>>::empty());
    }
}

proof fn lemma_rows_tags_push(rows: Seq<Seq<Seq<char>>>, r: Seq<Seq<char>>)
    ensures
        rows_tags(rows.push(r)) == rows_tags(rows).add(r.to_multiset()),
    decreases rows.len(),
{
    broadcast use vstd::multiset::group_multiset_axioms;
    if rows.len() == 0 {
        assert(rows.push(r).drop_first() =~= Seq::<Seq<Seq<char>>>::empty());
        assert(rows_tags(Seq::<Seq<Seq<char>>>::empty()) == Multiset::<Seq<char>>::empty());
        assert(rows.push(r)[0] == r);
        assert(rows_tags(rows.push(r)) == r.to_multiset().add(Multiset::<Seq<char>>::empty()));
        assert(rows_tags(rows) == Multiset::<Seq<char>>::empty());
        assert(rows_tags(rows.push(r)) =~= rows_tags(rows).add(r.to_multiset()));
    } else {
        lemma_rows_tags_push(rows.drop_first(), r);
        assert(rows.push(r).drop_first() =~= rows.drop_first().push(r));
        assert(rows.push(r)[0] == rows[0]);
        let a = rows[0].to_multiset();
        let b = rows_tags(rows.drop_first());
        assert(rows_tags(rows.push(r)) == a.add(b.add(r.to_multiset())));
        assert(rows_tags(rows) == a.add(b));
        assert(a.add(b.add(r.to_multiset())) =~= a.add(b).add(r.to_multiset()));
    }
}

proof fn lemma_place_tags(rows: Seq<Seq<Seq<char>>>, tag: Seq<char>)
    ensures
        rows_tags(place(rows, tag)) == rows_tags(rows).insert(tag),
    decreases rows.len(),
{
    broadcast use vstd::seq_lib::group_to_multiset_ensures, vstd::multiset::group_multiset_axioms;
    if rows.len() == 0 {
        lemma_rows_tags_push(rows, seq![tag]);
        assert(seq![seq![tag]] =~= rows.push(seq![tag]));
        assert(seq![tag] =~= Seq::<Seq<char>>::empty().push(tag));
        assert(Seq::<Seq<char>>::empty().to_multiset() =~= Multiset::empty());
        assert(rows_tags(place(rows, tag)) =~= rows_tags(rows).insert(tag));
    } else if fits(rows[0], tag, 3) {
        let p = rows.update(0, rows[0].push(tag));
        assert(p.drop_first() =~= rows.drop_first());
        assert(rows_tags(p) =~= rows_tags(rows).insert(tag));
    } else {
        lemma_place_tags(rows.drop_first(), tag);
        let p = seq![rows[0]] + place(rows.drop_first(), tag);
        assert(p.drop_first() =~= place(rows.drop_first(), tag));
        assert(rows_tags(p) =~= rows_tags(rows).insert(tag));
    }
}

proof fn lemma_pack_tags(rows: Seq<Seq<Seq<char>>>, tags: Seq<Seq<char>>)
    ensures
        rows_tags(pack(rows, tags)) == rows_tags(rows).add(tags.to_multiset()),
    decreases tags.len(),
{
    broadcast use vstd::seq_lib::group_to_multiset_ensures, vstd::multiset::group_multiset_axioms;
    if tags.len() == 0 {
        assert(tags.to_multiset() =~= Multiset::empty());
        assert(rows_tags(rows).add(tags.to_multiset()) =~= rows_tags(rows));
    } else {
        lemma_pack_tags(rows, tags.drop_last());
        lemma_place_tags(pack(rows, tags.drop_last()), tags.last());
        assert(tags.drop_last().push(tags.last()) =~= tags);
        assert(rows_tags(pack(rows, tags)) =~= rows_tags(rows).add(tags.to_multiset()));
    }
}

proof fn lemma_append_last_tags(rows: Seq<Seq<Seq<char>>>, tag: Seq<char>)
    ensures
        rows_tags(append_last(rows, tag)) == rows_tags(rows).insert(tag),
{
    broadcast use vstd::seq_lib::group_to_multiset_ensures, vstd::multiset::group_multiset_axioms;
    if rows.len() > 0 && fits(rows.last(), tag, 0) {
        let init = rows.drop_last();
        let x = rows.last().push(tag);
        assert(rows.update(rows.len() - 1, x) =~= init.push(x));
        assert(init.push(rows.last()) =~= rows);
        lemma_rows_tags_push(init, x);
        lemma_rows_tags_push(init, rows.last());
        assert(rows_tags(append_last(rows, tag)) =~= rows_tags(rows).insert(tag));
    } else {
        lemma_rows_tags_push(rows, seq![tag]);
        assert(seq![tag] =~= Seq::<Seq<char>>::empty().push(tag));
        assert(Seq::<Seq<char>>::empty().to_multiset() =~= Multiset::empty());
        assert(rows_tags(append_last(rows, tag)) =~= rows_tags(rows).insert(tag));
    }
}

proof fn lemma_append_all_tags(rows: Seq<Seq<Seq<char>>>, tags: Seq<Seq<char>>)
    ensures
        rows_tags(append_all(rows, tags)) == rows_tags(rows).add(tags.to_multiset()),
    decreases tags.len(),
{
    broadcast use vstd::seq_lib::group_to_multiset_ensures, vstd::multiset::group_multiset_axioms;
    if tags.len() == 0 {
        assert(tags.to_multiset() =~= Multiset::empty());
        assert(rows_tags(rows).add(tags.to_multiset()) =~= rows_tags(rows));
    } else {
        lemma_append_all_tags(rows, tags.drop_last());
        lemma_append_last_tags(append_all(rows, tags.drop_last()), tags.last());
        assert(tags.drop_last().push(tags.last()) =~= tags);
        assert(rows_tags(append_all(rows, tags)) =~= rows_tags(rows).add(tags.to_multiset()));
    }
}

/// The count tag that the keyboard shows is one of least rank: where any
/// of the first `n` tags has a rank, the chosen one has a rank, and no tag
/// has a smaller one; where none has, there is none.
pub proof fn lemma_least_count(ranks: Seq<Option<u8>>, n: int)
    requires
        0 <= n <= ranks.len(),
    ensures
        least_count(ranks, n) is None <==> (forall|k: int| 0 <= k < n ==> ranks[k] is None),
        least_count(ranks, n) matches Some(j) ==> 0 <= j < n && ranks[j] is Some
            && (forall|k: int| 0 <= k < n && ranks[k] is Some ==> ranks[j]->0 <= ranks[k]->0),
    decreases n,
{
    if n > 0 {
        lemma_least_count(ranks, n - 1);
    }
}

/// The first rating tag: where any of the first `n` tags is a rating, the
/// chosen one is, and no earlier one is.
pub proof fn lemma_first_rating(is_rating: Seq<bool>, n: int)
    requires
        0 <= n <= is_rating.len(),
    ensures
        first_rating(is_rating, n) is None <==> (forall|k: int| 0 <= k < n ==> !is_rating[k]),
        first_rating(is_rating, n) matches Some(j) ==> 0 <= j < n && is_rating[j]
            && (forall|k: int| 0 <= k < j ==> !is_rating[k]),
    decreases n,
{
    if n > 0 {
        lemma_first_rating(is_rating, n - 1);
    }
}

/// Where the sticker has no rating tag, the keyboard shows two rows: the
/// sticker's count tag of least rank (or all count tags where it has none),
/// and all rating tags.  Where it has a rating tag but no count tag, the
/// rows are all count tags and its first rating tag.
pub proof fn lemma_tag_rows_incomplete(
    current: Seq<String>,
    suggested: Seq<Seq<char>>,
    ranks: Seq<Option<u8>>,
    is_rating: Seq<bool>,
    special: Seq<bool>,
    all_count: Seq<Seq<char>>,
    all_rating: Seq<Seq<char>>,
)
    requires
        ranks.len() == current.len(),
        is_rating.len() == current.len(),
    ensures
        (forall|k: int| 0 <= k < current.len() ==> !is_rating[k]) ==> {
            let rows = tag_rows(current, suggested, ranks, is_rating, special, all_count, all_rating);
            &&& rows.len() == 2
            &&& rows[1] == all_rating
            &&& (forall|k: int| 0 <= k < current.len() ==> ranks[k] is None) ==> rows[0] == all_count
            &&& (exists|k: int| 0 <= k < current.len() && ranks[k] is Some) ==> exists|j: int| 0 <= j < current.len()
                && ranks[j] is Some
                && (forall|k: int| 0 <= k < current.len() && ranks[k] is Some ==> ranks[j]->0 <= ranks[k]->0)
                && rows[0] == seq![current[j]@]
        },
        (forall|k: int| 0 <= k < current.len() ==> ranks[k] is None) && (exists|k: int| 0 <= k < current.len() && is_rating[k]) ==> {
            let rows = tag_rows(current, suggested, ranks, is_rating, special, all_count, all_rating);
            &&& rows.len() == 2
            &&& rows[0] == all_count
            &&& exists|j: int| 0 <= j < current.len() && is_rating[j] && (forall|k: int| 0 <= k < j ==> !is_rating[k])
                && rows[1] == seq![current[j]@]
        },
{
    let n = current.len() as int;
    lemma_least_count(ranks, n);
    lemma_first_rating(is_rating, n);
    if (forall|k: int| 0 <= k < n ==> !is_rating[k]) {
        if (exists|k: int| 0 <= k < n && ranks[k] is Some) {
            let j = least_count(ranks, n)->0;
            assert(ranks[j] is Some);
        }
    }
    if (forall|k: int| 0 <= k < n ==> ranks[k] is None) && (exists|k: int| 0 <= k < n && is_rating[k]) {
        let j = first_rating(is_rating, n)->0;
        assert(is_rating[j]);
    }
}

/// Where the sticker has a count and a rating tag, the tagging keyboard
/// shows each of its tags as often as it has it, and each kept suggestion,
/// and no other tag: the tags of the rows, counted with repeats, are the
/// current tags and the kept suggestions.
pub proof fn lemma_tag_rows_hold_current_tags(
    current: Seq<String>,
    suggested: Seq<Seq<char>>,
    ranks: Seq<Option<u8>>,
    is_rating: Seq<bool>,
    special: Seq<bool>,
    all_count: Seq<Seq<char>>,
    all_rating: Seq<Seq<char>>,
)
    requires
        tagging_complete(ranks, is_rating, current.len() as int),
    ensures
        rows_tags(tag_rows(current, suggested, ranks, is_rating, special, all_count, all_rating))
            == current.map_values(|t: String| t@).to_multiset().add(
                kept_suggestions(suggested, special, current, suggested.len() as int).to_multiset()),
{
    broadcast use vstd::seq_lib::group_to_multiset_ensures, vstd::multiset::group_multiset_axioms;
    let cur = current.map_values(|t: String| t@);
    let present = longest_first(cur);
    let packed = pack(Seq::empty(), present);
    let kept = kept_suggestions(suggested, special, current, suggested.len() as int);
    lemma_longest_first_tags(cur);
    lemma_pack_tags(Seq::empty(), present);
    assert(rows_tags(Seq::<Seq<Seq<char>>>::empty()) =~= Multiset::empty());
    lemma_rows_tags_push(packed, Seq::empty());
    assert(Seq::<Seq<char>>::empty().to_multiset() =~= Multiset::empty());
    lemma_append_all_tags(packed.push(Seq::empty()), kept);
    assert(rows_tags(tag_rows(current, suggested, ranks, is_rating, special, all_count, all_rating)) =~= cur.to_multiset().add(kept.to_multiset()));
}

fn fits_exec(row: &Vec<String>, tag: &str, icon_width: usize) -> (r: bool)
    ensures
        r == fits(row.deep_view(), tag@, icon_width as int),
{
    let r = can_insert_tag_in_column(row, tag, icon_width);
    proof {
        let d = row.deep_view();
        let m = max_tag_len(row@.len() + 1int);
        assert(d.len() == row@.len());
        if r {
            assert forall|i: int| 0 <= i < d.len() implies byte_len(#[trigger] d[i]) + icon_width <= m by {
                assert(d[i] == row@[i]@);
            }
        } else if fits(d, tag@, icon_width as int) {
            assert forall|i: int| 0 <= i < row@.len() implies byte_len(#[trigger] row@[i]@) + icon_width <= m by {
                assert(d[i] == row@[i]@);
            }
        }
    }
    r
}

proof fn lemma_insert_at(d: Seq<Seq<char>>, x: Seq<char>, k: int)
    requires
        0 <= k <= d.len(),
        forall|j: int| 0 <= j < k ==> byte_len(#[trigger] d[j]) > byte_len(x),
        k < d.len() ==> byte_len(d[k]) <= byte_len(x),
    ensures
        insert_by_len(d, x) == d.insert(k, x),
    decreases k,
{
    if k == 0 {
        assert(insert_by_len(d, x) =~= d.insert(0, x));
    } else {
        let t = d.drop_first();
        assert forall|j: int| 0 <= j < k - 1 implies byte_len(#[trigger] t[j]) > byte_len(x) by {
            assert(t[j] == d[j + 1]);
        }
        lemma_insert_at(t, x, k - 1);
        assert(seq![d[0]] + t.insert(k - 1, x) =~= d.insert(k, x));
    }
}

/// The first position in `out` whose tag is not longer than `len` bytes.
fn first_not_longer(out: &Vec<String>, len: usize) -> (k: usize)
    ensures
        k <= out@.len(),
        forall|j: int| 0 <= j < k ==> byte_len(#[trigger] out@[j]@) > len,
        k < out@.len() ==> byte_len(out@[k as int]@) <= len,
{
    let mut k: usize = 0;
    while k < out.len()
        invariant
            0 <= k <= out@.len(),
            forall|j: int| 0 <= j < k ==> byte_len(#[trigger] out@[j]@) > len,
        decreases out@.len() - k,
    {
        let l = out[k].as_str().as_bytes().len();
        proof {
            crate::errors::lemma_byte_len_utf8(out@[k as int]@);
        }
        if l <= len {
            return k;
        }
        k = k + 1;
    }
    k
}

/// The tags from the longest to the shortest.
fn longest_first_exec(tags: &Vec<String>) -> (r: Vec<String>)
    ensures
        r.deep_view() == longest_first(tags.deep_view()),
{
    let mut out: Vec<String> = Vec::new();
    let mut i: usize = 0;
    proof {
        assert(tags.deep_view().take(0) =~= Seq::<Seq<char>>::empty());
        assert(out.deep_view() =~= Seq::<Seq<char>>::empty());
    }
    while i < tags.len()
        invariant
            0 <= i <= tags@.len(),
            out.deep_view() == longest_first(tags.deep_view().take(i as int)),
        decreases tags@.len() - i,
    {
        let x = tags[i].clone();
        let xl = x.as_str().as_bytes().len();
        proof {
            crate::errors::lemma_byte_len_utf8(x@);
        }
        let k = first_not_longer(&out, xl);
        let ghost before = out.deep_view();
        proof {
            assert forall|j: int| 0 <= j < k implies byte_len(#[trigger] before[j]) > byte_len(x@) by {
                assert(before[j] == out@[j]@);
            }
            lemma_insert_at(before, x@, k as int);
            let s = tags.deep_view();
            assert(s.take(i + 1).drop_last() =~= s.take(i as int));
            assert(s.take(i + 1).last() == tags@[i as int]@);
        }
        out.insert(k, x);
        proof {
            assert(out.deep_view() =~= before.insert(k as int, x@));
        }
        i = i + 1;
    }
    proof {
        assert(tags.deep_view().take(i as int) =~= tags.deep_view());
    }
    out
}

proof fn lemma_place_at(rows: Seq<Seq<Seq<char>>>, tag: Seq<char>, k: int)
    requires
        0 <= k <= rows.len(),
        forall|j: int| 0 <= j < k ==> !fits(#[trigger] rows[j], tag, 3),
        k < rows.len() ==> fits(rows[k], tag, 3),
    ensures
        place(rows, tag) == (if k < rows.len() { rows.update(k, rows[k].push(tag)) } else { rows.push(seq![tag]) }),
    decreases k,
{
    if k == 0 {
        if rows.len() == 0 {
            assert(place(rows, tag) =~= rows.push(seq![tag]));
        }
    } else {
        let t = rows.drop_first();
        assert(!fits(rows[0], tag, 3));
        assert forall|j: int| 0 <= j < k - 1 implies !fits(#[trigger] t[j], tag, 3) by {
            assert(t[j] == rows[j + 1]);
        }
        lemma_place_at(t, tag, k - 1);
        if k < rows.len() {
            assert(seq![rows[0]] + t.update(k - 1, t[k - 1].push(tag)) =~= rows.update(k, rows[k].push(tag)));
        } else {
            assert(seq![rows[0]] + t.push(seq![tag]) =~= rows.push(seq![tag]));
        }
    }
}

/// The first row that `tag` fits into with a 3-byte icon.
fn first_fit(rows: &Vec<Vec<String>>, tag: &str) -> (k: usize)
    ensures
        k <= rows@.len(),
        forall|j: int| 0 <= j < k ==> !fits(#[trigger] rows.deep_view()[j], tag@, 3),
        k < rows@.len() ==> fits(rows.deep_view()[k as int], tag@, 3),
{
    let mut k: usize = 0;
    while k < rows.len()
        invariant
            0 <= k <= rows@.len(),
            forall|j: int| 0 <= j < k ==> !fits(#[trigger] rows.deep_view()[j], tag@, 3),
        decreases rows@.len() - k,
    {
        let f = fits_exec(&rows[k], tag, 3);
        proof {
            assert(rows.deep_view()[k as int] == rows@[k as int].deep_view());
        }
        if f {
            return k;
        }
        k = k + 1;
    }
    k
}

proof fn lemma_row_push(row: Vec<String>, old_row: Vec<String>, t: String)
    requires
        row@ == old_row@.push(t),
    ensures
        row.deep_view() == old_row.deep_view().push(t@),
{
    assert(row.deep_view() =~= old_row.deep_view().push(t@));
}

/// `tag` added to the first row that it fits into, or in a new row.
fn place_exec(rows: &mut Vec<Vec<String>>, tag: String)
    ensures
        final(rows).deep_view() == place(old(rows).deep_view(), tag@),
{
    let k = first_fit(rows, tag.as_str());
    let ghost before = rows.deep_view();
    proof {
        lemma_place_at(before, tag@, k as int);
    }
    if k < rows.len() {
        let mut row = rows.remove(k);
        let ghost old_row = row;
        row.push(tag);
        proof {
            lemma_row_push(row, old_row, tag);
            assert(old_row.deep_view() == before[k as int]);
        }
        rows.insert(k, row);
        proof {
            assert(rows.deep_view() =~= before.update(k as int, before[k as int].push(tag@)));
        }
    } else {
        let mut row: Vec<String> = Vec::new();
        row.push(tag);
        proof {
            assert(row.deep_view() =~= seq![tag@]);
        }
        rows.push(row);
        proof {
            assert(rows.deep_view() =~= before.push(seq![tag@]));
        }
    }
}

/// The tags placed one after another into no rows.
fn pack_exec(tags: &Vec<String>) -> (rows: Vec<Vec<String>>)
    ensures
        rows.deep_view() == pack(Seq::empty(), tags.deep_view()),
{
    let mut rows: Vec<Vec<String>> = Vec::new();
    let mut i: usize = 0;
    proof {
        assert(rows.deep_view() =~= Seq::<Seq<Seq<char>>>::empty());
        assert(tags.deep_view().take(0) =~= Seq::<Seq<char>>::empty());
    }
    while i < tags.len()
        invariant
            0 <= i <= tags@.len(),
            rows.deep_view() == pack(Seq::empty(), tags.deep_view().take(i as int)),
        decreases tags@.len() - i,
    {
        proof {
            let s = tags.deep_view();
            assert(s.take(i + 1).drop_last() =~= s.take(i as int));
            assert(s.take(i + 1).last() == tags@[i as int]@);
        }
        place_exec(&mut rows, tags[i].clone());
        i = i + 1;
    }
    proof {
        assert(tags.deep_view().take(i as int) =~= tags.deep_view());
    }
    rows
}

/// `tag` added to the last row where it fits there, else in a new row.
fn append_last_exec(rows: &mut Vec<Vec<String>>, tag: String)
    ensures
        final(rows).deep_view() == append_last(old(rows).deep_view(), tag@),
{
    let ghost before = rows.deep_view();
    let n = rows.len();
    let fit = if n > 0 { fits_exec(&rows[n - 1], tag.as_str(), 0) } else { false };
    proof {
        if n > 0 {
            assert(before.last() == rows@[n - 1].deep_view());
        }
    }
    if fit {
        let mut row = rows.remove(n - 1);
        let ghost old_row = row;
        row.push(tag);
        proof {
            lemma_row_push(row, old_row, tag);
        }
        rows.push(row);
        proof {
            assert(rows.deep_view() =~= before.update(n - 1, before.last().push(tag@)));
        }
    } else {
        let mut row: Vec<String> = Vec::new();
        row.push(tag);
        proof {
            assert(row.deep_view() =~= seq![tag@]);
        }
        rows.push(row);
        proof {
            assert(rows.deep_view() =~= before.push(seq![tag@]));
        }
    }
}

/// The tags appended one after another.
fn append_all_exec(rows: &mut Vec<Vec<String>>, tags: &Vec<String>)
    ensures
        final(rows).deep_view() == append_all(old(rows).deep_view(), tags.deep_view()),
{
    let ghost start = rows.deep_view();
    let mut i: usize = 0;
    proof {
        assert(tags.deep_view().take(0) =~= Seq::<Seq<char>>::empty());
    }
    while i < tags.len()
        invariant
            0 <= i <= tags@.len(),
            rows.deep_view() == append_all(start, tags.deep_view().take(i as int)),
        decreases tags@.len() - i,
    {
        proof {
            let s = tags.deep_view();
            assert(s.take(i + 1).drop_last() =~= s.take(i as int));
            assert(s.take(i + 1).last() == tags@[i as int]@);
        }
        append_last_exec(rows, tags[i].clone());
        i = i + 1;
    }
    proof {
        assert(tags.deep_view().take(i as int) =~= tags.deep_view());
    }
}

/// The suggestions that are neither a count nor a rating tag and that the
/// sticker does not have yet.
fn kept_suggestions_exec(suggested: &Vec<String>, special: &Vec<bool>, current: &Vec<String>) -> (r: Vec<String>)
    requires
        special@.len() == suggested@.len(),
    ensures
        r.deep_view() == kept_suggestions(suggested.deep_view(), special@, current@, suggested@.len() as int),
{
    let mut out: Vec<String> = Vec::new();
    let mut i: usize = 0;
    proof {
        assert(out.deep_view() =~= Seq::<Seq<char>>::empty());
    }
    while i < suggested.len()
        invariant
            0 <= i <= suggested@.len(),
            special@.len() == suggested@.len(),
            out.deep_view() == kept_suggestions(suggested.deep_view(), special@, current@, i as int),
        decreases suggested@.len() - i,
    {
        proof {
            assert(suggested.deep_view()[i as int] == suggested@[i as int]@);
        }
        if !special[i] && !contains_text(current, suggested[i].as_str()) {
            let ghost before = out;
            let t = suggested[i].clone();
            out.push(t);
            proof {
                lemma_row_push(out, before, t);
            }
        }
        i = i + 1;
    }
    out
}

/// The first tag with the least count rank.
fn least_count_exec(ranks: &Vec<Option<u8>>) -> (r: Option<usize>)
    ensures
        match r {
            Some(j) => least_count(ranks@, ranks@.len() as int) == Some(j as int) && j < ranks@.len(),
            None => least_count(ranks@, ranks@.len() as int) is None,
        },
{
    let mut best: Option<usize> = None;
    let mut i: usize = 0;
    while i < ranks.len()
        invariant
            0 <= i <= ranks@.len(),
            match best {
                Some(j) => least_count(ranks@, i as int) == Some(j as int) && j < i,
                None => least_count(ranks@, i as int) is None,
            },
        decreases ranks@.len() - i,
    {
        proof {
            if let Some(j) = least_count(ranks@, i as int) {
                lemma_least_count_some(ranks@, i as int);
            }
        }
        match ranks[i] {
            Some(r) => {
                let better = match best {
                    None => true,
                    Some(j) => match ranks[j] {
                        Some(rj) => r < rj,
                        None => false,
                    },
                };
                if better {
                    best = Some(i);
                }
            },
            None => {},
        }
        i = i + 1;
    }
    best
}

proof fn lemma_least_count_some(ranks: Seq<Option<u8>>, n: int)
    requires
        0 <= n <= ranks.len(),
        least_count(ranks, n) is Some,
    ensures
        0 <= least_count(ranks, n)->0 < n,
        ranks[least_count(ranks, n)->0] is Some,
    decreases n,
{
    if n > 0 && least_count(ranks, n - 1) is Some {
        lemma_least_count_some(ranks, n - 1);
    }
}

/// The first rating tag.
fn first_rating_exec(is_rating: &Vec<bool>) -> (r: Option<usize>)
    ensures
        match r {
            Some(j) => first_rating(is_rating@, is_rating@.len() as int) == Some(j as int) && j < is_rating@.len(),
            None => first_rating(is_rating@, is_rating@.len() as int) is None,
        },
{
    let mut found: Option<usize> = None;
    let mut i: usize = 0;
    while i < is_rating.len()
        invariant
            0 <= i <= is_rating@.len(),
            match found {
                Some(j) => first_rating(is_rating@, i as int) == Some(j as int) && j < i,
                None => first_rating(is_rating@, i as int) is None,
            },
        decreases is_rating@.len() - i,
    {
        if found.is_none() && is_rating[i] {
            found = Some(i);
        }
        i = i + 1;
    }
    found
}

proof fn lemma_index_from_none(v: Seq<String>, t: Seq<char>, i: int)
    requires
        0 <= i,
        index_from(v, t, i) == -1,
    ensures
        forall|k: int| i <= k < v.len() ==> #[trigger] v[k]@ != t,
    decreases v.len() - i,
{
    if i < v.len() {
        lemma_index_from_none(v, t, i + 1);
    }
}

/// The first position of `t` in `v`.
fn index_of(v: &Vec<String>, t: &str) -> (r: Option<usize>)
    ensures
        match r {
            Some(j) => index_from(v@, t@, 0) == j as int && j < v@.len(),
            None => index_from(v@, t@, 0) == -1,
        },
{
    let mut j: usize = 0;
    while j < v.len()
        invariant
            0 <= j <= v@.len(),
            index_from(v@, t@, 0) == index_from(v@, t@, j as int),
        decreases v@.len() - j,
    {
        if crate::command::text_eq(v[j].as_str(), t) {
            return Some(j);
        }
        j = j + 1;
    }
    None
}

/// The button of one tag.
fn tag_button_exec(tag: &String, current: &Vec<String>, id: &str, emojis: &Vec<Option<String>>) -> (b: Button)
    requires
        emojis@.len() == current@.len(),
    ensures
        b@ == tag_button(current@, emojis@, id@, tag@),
{
    let found = index_of(current, tag.as_str());
    let emoji: Option<&str> = match found {
        Some(j) => match &emojis[j] {
            Some(e) => Some(e.as_str()),
            None => None,
        },
        None => None,
    };
    proof {
        if found is None {
            lemma_index_from_none(current@, tag@, 0);
        }
    }
    tag_to_button(tag.as_str(), current, id, emoji)
}

/// The rows of tags as rows of buttons.
pub(crate) fn button_rows_exec(rows: &Vec<Vec<String>>, current: &Vec<String>, id: &str, emojis: &Vec<Option<String>>) -> (r: Vec<Vec<Button>>)
    requires
        emojis@.len() == current@.len(),
    ensures
        layout_view(r@) == button_rows(rows.deep_view(), current@, emojis@, id@),
{
    let ghost want = button_rows(rows.deep_view(), current@, emojis@, id@);
    let mut out: Vec<Vec<Button>> = Vec::new();
    let mut i: usize = 0;
    while i < rows.len()
        invariant
            0 <= i <= rows@.len(),
            emojis@.len() == current@.len(),
            want == button_rows(rows.deep_view(), current@, emojis@, id@),
            out@.len() == i,
            forall|k: int| 0 <= k < i ==> #[trigger] layout_view(out@)[k] == want[k],
        decreases rows@.len() - i,
    {
        let row = &rows[i];
        let mut bs: Vec<Button> = Vec::new();
        let mut j: usize = 0;
        while j < row.len()
            invariant
                0 <= j <= row@.len(),
                emojis@.len() == current@.len(),
                bs@.len() == j,
                forall|m: int| 0 <= m < j ==> #[trigger] row_view(bs)[m] == tag_button(current@, emojis@, id@, row@[m]@),
            decreases row@.len() - j,
        {
            let b = tag_button_exec(&row[j], current, id, emojis);
            let ghost old_bs = bs;
            bs.push(b);
            proof {
                assert forall|m: int| 0 <= m < j + 1 implies #[trigger] row_view(bs)[m] == tag_button(current@, emojis@, id@, row@[m]@) by {
                    assert(row_view(bs)[m] == bs@[m]@);
                    if m < j {
                        assert(bs@[m] == old_bs@[m]);
                        assert(row_view(old_bs)[m] == old_bs@[m]@);
                    } else {
                        assert(bs@[m] == b);
                    }
                }
            }
            j = j + 1;
        }
        proof {
            assert(rows.deep_view()[i as int] == row.deep_view());
            assert(row_view(bs) =~= want[i as int]);
        }
        let ghost before = out@;
        out.push(bs);
        proof {
            assert forall|k: int| 0 <= k < i + 1 implies #[trigger] layout_view(out@)[k] == want[k] by {
                assert(layout_view(out@)[k] == row_view(out@[k]));
                if k < i {
                    assert(out@[k] == before[k]);
                    assert(layout_view(before)[k] == row_view(before[k]));
                } else {
                    assert(out@[k] == bs);
                }
            }
        }
        i = i + 1;
    }
    proof {
        assert(layout_view(out@) =~= want);
    }
    out
}

/// A copy of the tags.
fn copy_tags(v: &Vec<String>) -> (r: Vec<String>)
    ensures
        r.deep_view() == v.deep_view(),
{
    let mut out: Vec<String> = Vec::new();
    let mut i: usize = 0;
    while i < v.len()
        invariant
            0 <= i <= v@.len(),
            out.deep_view() == v.deep_view().take(i as int),
        decreases v@.len() - i,
    {
        let ghost before = out;
        let t = v[i].clone();
        out.push(t);
        proof {
            lemma_row_push(out, before, t);
            assert(v.deep_view().take(i + 1) =~= v.deep_view().take(i as int).push(t@));
        }
        i = i + 1;
    }
    proof {
        assert(v.deep_view().take(i as int) =~= v.deep_view());
    }
    out
}

/// The tags of the tagging keyboard, row by row.
pub(crate) fn tag_rows_exec(
    current: &Vec<String>,
    suggested: &Vec<String>,
    ranks: &Vec<Option<u8>>,
    is_rating: &Vec<bool>,
    special: &Vec<bool>,
    all_count: &Vec<String>,
    all_rating: &Vec<String>,
) -> (r: (Vec<Vec<String>>, bool))
    requires
        ranks@.len() == current@.len(),
        is_rating@.len() == current@.len(),
        special@.len() == suggested@.len(),
    ensures
        r.0.deep_view() == tag_rows(current@, suggested.deep_view(), ranks@, is_rating@, special@, all_count.deep_view(), all_rating.deep_view()),
        r.1 == tagging_complete(ranks@, is_rating@, current@.len() as int),
{
    let count = least_count_exec(ranks);
    let rating = first_rating_exec(is_rating);
    if count.is_some() && rating.is_some() {
        proof {
            assert(current.deep_view() =~= current@.map_values(|t: String| t@));
        }
        let present = longest_first_exec(current);
        let mut rows = pack_exec(&present);
        let ghost packed = rows.deep_view();
        let empty: Vec<String> = Vec::new();
        rows.push(empty);
        proof {
            assert(empty.deep_view() =~= Seq::<Seq<char>>::empty());
            assert(rows.deep_view() =~= packed.push(Seq::empty()));
        }
        let kept = kept_suggestions_exec(suggested, special, current);
        append_all_exec(&mut rows, &kept);
        (rows, true)
    } else {
        let row0 = match count {
            Some(c) => {
                let mut r: Vec<String> = Vec::new();
                r.push(current[c].clone());
                proof {
                    assert(r.deep_view() =~= seq![current@[c as int]@]);
                }
                r
            },
            None => copy_tags(all_count),
        };
        let row1 = match rating {
            Some(c) => {
                let mut r: Vec<String> = Vec::new();
                r.push(current[c].clone());
                proof {
                    assert(r.deep_view() =~= seq![current@[c as int]@]);
                }
                r
            },
            None => copy_tags(all_rating),
        };
        let mut rows: Vec<Vec<String>> = Vec::new();
        rows.push(row0);
        rows.push(row1);
        proof {
            assert(rows.deep_view() =~= seq![row0.deep_view(), row1.deep_view()]);
        }
        (rows, false)
    }
}

/// The frame of the tagging keyboard: the sticker's tabs come first with
/// the tags tab open, then one row of buttons per row of tags, each tag a
/// button; where the sticker has a count and a rating tag there follow the
/// button that searches more tags for the sticker, the lock row exactly
/// where tagging is locked or the sticker is a `meta_sticker` (locked: a
/// button that unlocks; else one that locks), and the exit row exactly in
/// continuous tag mode, as the last row.  A tag that the sticker has gets
/// a button that untags it; any other tag one that tags it.
pub proof fn lemma_tagging_frame(
    current: Seq<String>,
    id: Seq<char>,
    suggested: Seq<Seq<char>>,
    locked: bool,
    continuous: bool,
    ranks: Seq<Option<u8>>,
    is_rating: Seq<bool>,
    special: Seq<bool>,
    all_count: Seq<Seq<char>>,
    all_rating: Seq<Seq<char>>,
    emojis: Seq<Option<String>>,
)
    ensures ({
        let v = tagging_view(current, id, suggested, locked, continuous, ranks, is_rating, special, all_count, all_rating, emojis);
        let rows = tag_rows(current, suggested, ranks, is_rating, special, all_count, all_rating);
        let shows_lock = locked || lists(current, "meta_sticker"@);
        &&& v[0] == sticker_tabs_view(StickerTab::Tags, id)
        &&& forall|i: int| 0 <= i < rows.len() ==> (#[trigger] v[i + 1]).len() == rows[i].len()
        &&& forall|i: int, j: int| 0 <= i < rows.len() && 0 <= j < rows[i].len() ==> {
            &&& lists(current, rows[i][j]) ==> (#[trigger] v[i + 1][j]).action == ActionView::Callback(CallbackDataView::Sticker(id, Some(TagOperationView::Untag(rows[i][j]))))
            &&& !lists(current, rows[i][j]) ==> v[i + 1][j] == callback_button(rows[i][j], CallbackDataView::Sticker(id, Some(TagOperationView::Tag(rows[i][j]))))
        }
        &&& !tagging_complete(ranks, is_rating, current.len() as int) ==> v.len() == rows.len() + 1
        &&& tagging_complete(ranks, is_rating, current.len() as int) ==> {
            &&& v.len() == rows.len() + 2 + (if shows_lock { 1int } else { 0 }) + (if continuous { 1int } else { 0 })
            &&& v[rows.len() + 1int] == seq![query_button("Add more tags to this sticker"@, InlineQueryView::SearchTagsForSticker(Seq::empty(), id))]
            &&& shows_lock ==> v[rows.len() + 2int] == seq![callback_button(
                if locked { "🔒 Bulk Tagging Locked"@ } else { "🔓 Bulk Tagging Unlocked"@ },
                CallbackDataView::SetLock(id, !locked))]
            &&& continuous ==> v.last() == seq![callback_button("❌ Exit Continuous Tag Mode"@, CallbackDataView::ExitDialog)]
        }
    }),
{
    let v = tagging_view(current, id, suggested, locked, continuous, ranks, is_rating, special, all_count, all_rating, emojis);
    let rows = tag_rows(current, suggested, ranks, is_rating, special, all_count, all_rating);
    let br = button_rows(rows, current, emojis, id);
    let head = seq![sticker_tabs_view(StickerTab::Tags, id)] + br;
    assert(head[0] == sticker_tabs_view(StickerTab::Tags, id));
    assert forall|i: int| 0 <= i < rows.len() implies #[trigger] head[i + 1] == rows[i].map_values(|t: Seq<char>| tag_button(current, emojis, id, t)) by {
        assert(head[i + 1] == br[i]);
    }
    if tagging_complete(ranks, is_rating, current.len() as int) {
        let shows_lock = locked || lists(current, "meta_sticker"@);
        let more = seq![seq![query_button("Add more tags to this sticker"@, InlineQueryView::SearchTagsForSticker(Seq::empty(), id))]];
        let lock = if shows_lock { seq![seq![lock_button(id, locked)]] } else { Seq::<Seq<ButtonView>>::empty() };
        let exit = if continuous { seq![seq![callback_button("❌ Exit Continuous Tag Mode"@, CallbackDataView::ExitDialog)]] } else { Seq::<Seq<ButtonView>>::empty() };
        assert(v == head + more + lock + exit);
        assert forall|i: int| 0 <= i < rows.len() + 1 implies #[trigger] v[i] == head[i] by {}
        assert(v[rows.len() + 1int] == more[0]);
        if shows_lock {
            assert(v[rows.len() + 2int] == lock[0]);
        }
        if continuous {
            assert(v.last() == exit[0]);
        }
    }
}

} // verus!
