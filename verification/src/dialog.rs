//! How the bot's dialogs change the lists that they keep: the stickers
//! marked in the recommender, the user's tag blacklist, the two lists of
//! the continuous tag mode, and the aliases of the tag creator.  Each
//! function takes the state and the user's request and gives the next
//! state; sending it and storing it is the caller's work.
use vstd::prelude::*;
use crate::chars::texts;
use crate::handler_logic::{implying, tags_that_should_be_removed};
use crate::inline_data::TagKind;
use crate::model::Category;
use crate::hidden::{add_new_tags_to_continuous_tag, contains_text, has_text, kept_tag, strictly_sorted};

verus! {

/// The texts of `v` that `drop` does not hold, in order.
pub open spec fn keep_not_in(v: Seq<Seq<char>>, drop: Seq<Seq<char>>) -> Seq<Seq<char>>
    decreases v.len(),
{
    if v.len() == 0 {
        Seq::empty()
    } else {
        let before = keep_not_in(v.drop_last(), drop);
        if has_text(drop, v.last()) { before } else { before.push(v.last()) }
    }
}

/// No text occurs twice.
pub open spec fn unique(v: Seq<Seq<char>>) -> bool {
    forall|i: int, j: int| 0 <= i < j < v.len() ==> #[trigger] v[i] != #[trigger] v[j]
}

/// No text is in both lists.
pub open spec fn disjoint(a: Seq<Seq<char>>, b: Seq<Seq<char>>) -> bool {
    forall|t: Seq<char>| #![trigger has_text(a, t)] #![trigger has_text(b, t)] has_text(a, t) ==> !has_text(b, t)
}

proof fn lemma_has_text_push(v: Seq<Seq<char>>, x: Seq<char>)
    ensures
        forall|t: Seq<char>| has_text(v.push(x), t) <==> (has_text(v, t) || t == x),
{
    assert forall|t: Seq<char>| has_text(v.push(x), t) <==> (has_text(v, t) || t == x) by {
        if has_text(v, t) {
            let i = choose|i: int| 0 <= i < v.len() && v[i] == t;
            assert(v.push(x)[i] == t);
        }
        if t == x {
            assert(v.push(x)[v.len() as int] == t);
        }
        if has_text(v.push(x), t) {
            let i = choose|i: int| 0 <= i < v.push(x).len() && v.push(x)[i] == t;
            if i < v.len() {
                assert(v[i] == t);
            }
        }
    }
}

proof fn lemma_has_text_last(v: Seq<Seq<char>>)
    requires
        v.len() > 0,
    ensures
        forall|t: Seq<char>| has_text(v, t) <==> (has_text(v.drop_last(), t) || t == v.last()),
{
    assert(v.drop_last().push(v.last()) =~= v);
    lemma_has_text_push(v.drop_last(), v.last());
}

/// A text is kept exactly where `v` holds it and `drop` does not; a list
/// without repeats stays without repeats.
pub proof fn lemma_keep_not_in(v: Seq<Seq<char>>, drop: Seq<Seq<char>>)
    ensures
        forall|t: Seq<char>| has_text(keep_not_in(v, drop), t) <==> (has_text(v, t) && !has_text(drop, t)),
        unique(v) ==> unique(keep_not_in(v, drop)),
    decreases v.len(),
{
    if v.len() == 0 {
        assert forall|t: Seq<char>| has_text(keep_not_in(v, drop), t) <==> (has_text(v, t) && !has_text(drop, t)) by {
            assert(keep_not_in(v, drop).len() == 0);
        }
    } else {
        let p = v.drop_last();
        lemma_keep_not_in(p, drop);
        lemma_has_text_last(v);
        let before = keep_not_in(p, drop);
        lemma_has_text_push(before, v.last());
        if unique(v) {
            assert(unique(p)) by {
                assert forall|i: int, j: int| 0 <= i < j < p.len() implies #[trigger] p[i] != #[trigger] p[j] by {
                    assert(p[i] == v[i] && p[j] == v[j]);
                }
            }
            if !has_text(drop, v.last()) {
                assert(!has_text(p, v.last())) by {
                    if has_text(p, v.last()) {
                        let i = choose|i: int| 0 <= i < p.len() && p[i] == v.last();
                        assert(v[i] == v[v.len() - 1]);
                    }
                }
                let r = before.push(v.last());
                assert forall|i: int, j: int| 0 <= i < j < r.len() implies #[trigger] r[i] != #[trigger] r[j] by {
                    if j == r.len() - 1 {
                        assert(r[i] == before[i]);
                        assert(has_text(before, before[i]));
                    } else {
                        assert(r[i] == before[i] && r[j] == before[j]);
                    }
                }
            }
        }
    }
}

/// The strings of `v` whose texts `drop` does not hold, in order.
fn keep_not_in_exec(v: &Vec<String>, drop: &Vec<String>) -> (r: Vec<String>)
    ensures
        texts(r@) == keep_not_in(texts(v@), texts(drop@)),
{
    let mut out: Vec<String> = Vec::new();
    let mut i: usize = 0;
    proof {
        assert(texts(out@) =~= Seq::<Seq<char>>::empty());
        assert(texts(v@).take(0) =~= Seq::<Seq<char>>::empty());
    }
    while i < v.len()
        invariant
            0 <= i <= v@.len(),
            texts(out@) == keep_not_in(texts(v@).take(i as int), texts(drop@)),
        decreases v@.len() - i,
    {
        let ghost before = out@;
        proof {
            let s = texts(v@);
            assert(s.take(i + 1).drop_last() =~= s.take(i as int));
            assert(s.take(i + 1).last() == v@[i as int]@);
        }
        if !contains_text(drop, &v[i]) {
            out.push(v[i].clone());
            proof {
                assert(texts(out@) =~= texts(before).push(v@[i as int]@));
            }
        }
        i = i + 1;
    }
    proof {
        assert(texts(v@).take(i as int) =~= texts(v@));
    }
    out
}

proof fn lemma_keep_not_in_twice(v: Seq<Seq<char>>, drop: Seq<Seq<char>>)
    ensures
        keep_not_in(keep_not_in(v, drop), drop) == keep_not_in(v, drop),
    decreases v.len(),
{
    if v.len() > 0 {
        lemma_keep_not_in_twice(v.drop_last(), drop);
        let before = keep_not_in(v.drop_last(), drop);
        if !has_text(drop, v.last()) {
            let r = before.push(v.last());
            assert(r.drop_last() =~= before);
        }
    }
}

fn single(t: &String) -> (r: Vec<String>)
    ensures
        texts(r@) == seq![t@],
{
    let mut r: Vec<String> = Vec::new();
    r.push(t.clone());
    proof {
        assert(texts(r@) =~= seq![t@]);
    }
    r
}

/// The recommender's marks after the user pressed "more like this"
/// (`positive`) or "less like this" on a sticker: where the sticker is on
/// the pressed list, it leaves that list; else it joins the pressed list
/// and leaves the other one.
pub open spec fn toggle_recommend(pos: Seq<Seq<char>>, neg: Seq<Seq<char>>, id: Seq<char>, positive: bool) -> (Seq<Seq<char>>, Seq<Seq<char>>) {
    if positive {
        if has_text(pos, id) { (keep_not_in(pos, seq![id]), neg) } else { (pos.push(id), keep_not_in(neg, seq![id])) }
    } else {
        if has_text(neg, id) { (pos, keep_not_in(neg, seq![id])) } else { (keep_not_in(pos, seq![id]), neg.push(id)) }
    }
}

/// The stickers marked as liked and as disliked after the user pressed
/// "more like this" (`positive`) or "less like this" on `sticker_id`.
pub fn toggle_recommend_sticker(positive_sticker_ids: Vec<String>, negative_sticker_ids: Vec<String>, sticker_id: String, positive: bool) -> (r: (Vec<String>, Vec<String>))
    ensures
        (texts(r.0@), texts(r.1@)) == toggle_recommend(texts(positive_sticker_ids@), texts(negative_sticker_ids@), sticker_id@, positive),
{
    let one = single(&sticker_id);
    proof {
        assert(has_text(seq![sticker_id@], sticker_id@) || true);
    }
    if positive {
        if contains_text(&positive_sticker_ids, &sticker_id) {
            (keep_not_in_exec(&positive_sticker_ids, &one), negative_sticker_ids)
        } else {
            let neg = keep_not_in_exec(&negative_sticker_ids, &one);
            let mut pos = positive_sticker_ids;
            let ghost before = pos@;
            pos.push(sticker_id);
            proof {
                assert(texts(pos@) =~= texts(before).push(sticker_id@));
            }
            (pos, neg)
        }
    } else {
        if contains_text(&negative_sticker_ids, &sticker_id) {
            (positive_sticker_ids, keep_not_in_exec(&negative_sticker_ids, &one))
        } else {
            let pos = keep_not_in_exec(&positive_sticker_ids, &one);
            let mut neg = negative_sticker_ids;
            let ghost before = neg@;
            neg.push(sticker_id);
            proof {
                assert(texts(neg@) =~= texts(before).push(sticker_id@));
            }
            (pos, neg)
        }
    }
}

proof fn lemma_single(t: Seq<char>)
    ensures
        forall|u: Seq<char>| has_text(seq![t], u) <==> u == t,
{
    assert forall|u: Seq<char>| has_text(seq![t], u) <==> u == t by {
        if u == t {
            assert(seq![t][0] == u);
        }
    }
}

/// Pressing a recommender button keeps the liked and the disliked stickers
/// apart.  Afterwards the sticker is on the pressed list exactly where it
/// was not before, and it is not on the other list; every other sticker
/// stays where it was.
pub proof fn lemma_toggle_recommend(pos: Seq<Seq<char>>, neg: Seq<Seq<char>>, id: Seq<char>, positive: bool)
    requires
        disjoint(pos, neg),
    ensures
        disjoint(toggle_recommend(pos, neg, id, positive).0, toggle_recommend(pos, neg, id, positive).1),
        positive ==> (has_text(toggle_recommend(pos, neg, id, positive).0, id) <==> !has_text(pos, id)),
        positive ==> !has_text(toggle_recommend(pos, neg, id, positive).1, id),
        !positive ==> (has_text(toggle_recommend(pos, neg, id, positive).1, id) <==> !has_text(neg, id)),
        !positive ==> !has_text(toggle_recommend(pos, neg, id, positive).0, id),
        forall|t: Seq<char>| t != id ==> (has_text(toggle_recommend(pos, neg, id, positive).0, t) <==> has_text(pos, t)),
        forall|t: Seq<char>| t != id ==> (has_text(toggle_recommend(pos, neg, id, positive).1, t) <==> has_text(neg, t)),
{
    lemma_single(id);
    lemma_keep_not_in(pos, seq![id]);
    lemma_keep_not_in(neg, seq![id]);
    lemma_has_text_push(pos, id);
    lemma_has_text_push(neg, id);
    assert(has_text(seq![id], id));
    let p2 = toggle_recommend(pos, neg, id, positive).0;
    let n2 = toggle_recommend(pos, neg, id, positive).1;
    assert forall|t: Seq<char>| has_text(p2, t) implies !has_text(n2, t) by {
        if t != id {
            assert(!has_text(seq![id], t));
            assert(has_text(pos, t));
        }
    }
    if positive && has_text(pos, id) {
        assert(!has_text(neg, id));
    }
    if !positive && has_text(neg, id) {
        assert(!has_text(pos, id));
    }
}

/// The blacklist after the user adds `tag`: any earlier entry of the tag
/// leaves, and the tag comes last.
pub open spec fn blacklist_add(blacklist: Seq<Seq<char>>, tag: Seq<char>) -> Seq<Seq<char>> {
    keep_not_in(blacklist, seq![tag]).push(tag)
}

/// The blacklist with `tag` added at the end, once.
pub fn blacklist_with_tag(blacklist: &Vec<String>, tag: String) -> (r: Vec<String>)
    ensures
        texts(r@) == blacklist_add(texts(blacklist@), tag@),
{
    let one = single(&tag);
    let mut r = keep_not_in_exec(blacklist, &one);
    let ghost before = r@;
    r.push(tag);
    proof {
        assert(texts(r@) =~= texts(before).push(tag@));
    }
    r
}

/// The blacklist without `tag`.
pub fn blacklist_without_tag(blacklist: &Vec<String>, tag: &String) -> (r: Vec<String>)
    ensures
        texts(r@) == keep_not_in(texts(blacklist@), seq![tag@]),
{
    let one = single(tag);
    keep_not_in_exec(blacklist, &one)
}

/// After adding a tag, the blacklist holds the tag once, as its last
/// entry, besides what it held; a blacklist without repeats keeps none.
/// Removing the tag again gives the old blacklist without it, and after
/// removing, the tag is gone.
pub proof fn lemma_blacklist(blacklist: Seq<Seq<char>>, tag: Seq<char>)
    ensures
        blacklist_add(blacklist, tag).last() == tag,
        forall|i: int| 0 <= i < blacklist_add(blacklist, tag).len() - 1 ==> #[trigger] blacklist_add(blacklist, tag)[i] != tag,
        forall|t: Seq<char>| has_text(blacklist_add(blacklist, tag), t) <==> (has_text(blacklist, t) || t == tag),
        unique(blacklist) ==> unique(blacklist_add(blacklist, tag)),
        keep_not_in(blacklist_add(blacklist, tag), seq![tag]) == keep_not_in(blacklist, seq![tag]),
        !has_text(keep_not_in(blacklist, seq![tag]), tag),
{
    lemma_single(tag);
    let k = keep_not_in(blacklist, seq![tag]);
    lemma_keep_not_in(blacklist, seq![tag]);
    lemma_has_text_push(k, tag);
    assert(has_text(seq![tag], tag));
    assert(!has_text(k, tag));
    assert forall|i: int| 0 <= i < blacklist_add(blacklist, tag).len() - 1 implies #[trigger] blacklist_add(blacklist, tag)[i] != tag by {
        assert(blacklist_add(blacklist, tag)[i] == k[i]);
        assert(has_text(k, k[i]));
    }
    if unique(blacklist) {
        let r = k.push(tag);
        assert forall|i: int, j: int| 0 <= i < j < r.len() implies #[trigger] r[i] != #[trigger] r[j] by {
            if j == r.len() - 1 {
                assert(r[i] == k[i]);
                assert(has_text(k, k[i]));
            } else {
                assert(r[i] == k[i] && r[j] == k[j]);
            }
        }
    }
    let r = k.push(tag);
    assert(r.drop_last() =~= k);
    lemma_keep_not_in_twice(blacklist, seq![tag]);
}

/// The lists of the continuous tag mode after a command adds `new_add` to
/// the tags to add and `new_remove` to the tags to remove.  The tags to
/// remove are updated first and lose the new tags to add; then the tags to
/// add lose what is left to remove.  Both lists are sorted without repeats.
/// No tag is on both lists, and every new tag to add is on the list of tags
/// to add.
pub fn continuous_tag_lists(add_tags: Vec<String>, remove_tags: Vec<String>, new_add: Vec<String>, new_remove: Vec<String>) -> (r: (Vec<String>, Vec<String>))
    ensures
        strictly_sorted(texts(r.0@)),
        strictly_sorted(texts(r.1@)),
        forall|t: Seq<char>| has_text(texts(r.1@), t) <==> kept_tag(texts(remove_tags@), texts(new_remove@), texts(new_add@), t),
        forall|t: Seq<char>| has_text(texts(r.0@), t) <==> kept_tag(texts(add_tags@), texts(new_add@), texts(r.1@), t),
        disjoint(texts(r.0@), texts(r.1@)),
        forall|t: Seq<char>| has_text(texts(new_add@), t) ==> has_text(texts(r.0@), t),
{
    let ghost na = texts(new_add@);
    let remove = add_new_tags_to_continuous_tag(remove_tags, new_remove, &new_add);
    let add = add_new_tags_to_continuous_tag(add_tags, new_add, &remove);
    proof {
        assert forall|t: Seq<char>| has_text(na, t) implies has_text(texts(add@), t) by {
            assert(!has_text(texts(remove@), t));
        }
    }
    (add, remove)
}

/// The lists of the continuous tag mode after the user takes `tag` off
/// them: from each list leave the tags that imply `tag`
/// (`add_implications[i]` are the implications of `add_tags[i]`, likewise
/// for the tags to remove) and `tag` itself.  Afterwards `tag` is on
/// neither list.
pub fn continuous_tag_lists_without(
    tag: String,
    add_tags: Vec<String>,
    remove_tags: Vec<String>,
    add_implications: &Vec<Option<Vec<String>>>,
    remove_implications: &Vec<Option<Vec<String>>>,
) -> (r: (Vec<String>, Vec<String>))
    requires
        add_implications@.len() == add_tags@.len(),
        remove_implications@.len() == remove_tags@.len(),
    ensures
        texts(r.0@) == keep_not_in(texts(add_tags@), implying(tag@, add_tags@, add_implications@).push(tag@)),
        texts(r.1@) == keep_not_in(texts(remove_tags@), implying(tag@, remove_tags@, remove_implications@).push(tag@)),
        !has_text(texts(r.0@), tag@),
        !has_text(texts(r.1@), tag@),
{
    let to_add = tags_that_should_be_removed(tag.clone(), &add_tags, add_implications);
    let to_remove = tags_that_should_be_removed(tag.clone(), &remove_tags, remove_implications);
    let add = keep_not_in_exec(&add_tags, &to_add);
    let remove = keep_not_in_exec(&remove_tags, &to_remove);
    proof {
        let da = implying(tag@, add_tags@, add_implications@).push(tag@);
        let dr = implying(tag@, remove_tags@, remove_implications@).push(tag@);
        lemma_keep_not_in(texts(add_tags@), da);
        lemma_keep_not_in(texts(remove_tags@), dr);
        assert(da[da.len() - 1] == tag@);
        assert(dr[dr.len() - 1] == tag@);
        assert(has_text(da, tag@));
        assert(has_text(dr, tag@));
    }
    (add, remove)
}

/// The aliases of the tag creator after the user adds `alias`: it joins at
/// the end unless it is there.
pub fn alias_added(aliases: Vec<String>, alias: String) -> (r: Vec<String>)
    ensures
        texts(r@) == (if has_text(texts(aliases@), alias@) { texts(aliases@) } else { texts(aliases@).push(alias@) }),
{
    if contains_text(&aliases, &alias) {
        aliases
    } else {
        let mut r = aliases;
        let ghost before = r@;
        r.push(alias);
        proof {
            assert(texts(r@) =~= texts(before).push(alias@));
        }
        r
    }
}

/// The aliases of the tag creator without `alias`.
pub fn alias_removed(aliases: &Vec<String>, alias: &String) -> (r: Vec<String>)
    ensures
        texts(r@) == keep_not_in(texts(aliases@), seq![alias@]),
{
    let one = single(alias);
    keep_not_in_exec(aliases, &one)
}

/// The id and the aliases of the tag creator after the user gives `tag_id`:
/// a main id replaces the id; an alias joins the aliases (see `alias_added`).
pub fn tag_creator_with_id(current_id: String, aliases: Vec<String>, tag_id: String, kind: TagKind) -> (r: (String, Vec<String>))
    ensures
        kind == TagKind::Main ==> r.0@ == tag_id@ && r.1@ == aliases@,
        kind == TagKind::Alias ==> r.0@ == current_id@
            && texts(r.1@) == (if has_text(texts(aliases@), tag_id@) { texts(aliases@) } else { texts(aliases@).push(tag_id@) }),
{
    match kind {
        TagKind::Main => (tag_id, aliases),
        TagKind::Alias => (current_id, alias_added(aliases, tag_id)),
    }
}

/// Adding an alias puts it among the aliases and keeps them without
/// repeats; removing one takes it out and keeps them without repeats.
pub proof fn lemma_aliases(aliases: Seq<Seq<char>>, alias: Seq<char>)
    requires
        unique(aliases),
    ensures
        has_text(if has_text(aliases, alias) { aliases } else { aliases.push(alias) }, alias),
        unique(if has_text(aliases, alias) { aliases } else { aliases.push(alias) }),
        !has_text(keep_not_in(aliases, seq![alias]), alias),
        unique(keep_not_in(aliases, seq![alias])),
{
    lemma_single(alias);
    lemma_keep_not_in(aliases, seq![alias]);
    lemma_has_text_push(aliases, alias);
    if !has_text(aliases, alias) {
        let r = aliases.push(alias);
        assert forall|i: int, j: int| 0 <= i < j < r.len() implies #[trigger] r[i] != #[trigger] r[j] by {
            if j == r.len() - 1 {
                assert(r[i] == aliases[i]);
                assert(has_text(aliases, aliases[i]));
            } else {
                assert(r[i] == aliases[i] && r[j] == aliases[j]);
            }
        }
    }
}

/// The fewest example stickers that a new tag needs.
pub const EXAMPLES_REQUIRED: usize = 2;

/// Why the tag creator refuses to submit a tag.
#[derive(Debug, Clone, Copy, PartialEq, Eq)]
pub enum TagCreationError {
    /// Fewer than `EXAMPLES_REQUIRED` example stickers.
    TooFewExamples,
    /// An alias equals the main tag.
    AliasIsMainTag,
    /// An artist tag without a linked channel.
    ArtistWithoutChannel,
    /// A character tag without a linked user.
    CharacterWithoutUser,
    /// A category that the tag creator does not offer.
    UnsupportedCategory(Category),
    /// No category picked.
    NoCategory,
}

impl TagCreationError {
    /// The message shown to the user (the category's own name, which the
    /// tag source gives, is not part of the message of an unsupported one).
    pub fn message(&self) -> (r: &'static str)
        ensures
            r@ == (match *self {
                TagCreationError::TooFewExamples => "You have to provide at least 2 example stickers, just send them here"@,
                TagCreationError::AliasIsMainTag => "Aliases have to be distinct from the main tag"@,
                TagCreationError::ArtistWithoutChannel => "Artist tags require a linked channel (user is optional)"@,
                TagCreationError::CharacterWithoutUser => "Character tags require a linked user (channel is optional)"@,
                TagCreationError::UnsupportedCategory(_) => "invalid category"@,
                TagCreationError::NoCategory => "Pick one of the categories: artist, character"@,
            }),
    {
        match self {
            TagCreationError::TooFewExamples => "You have to provide at least 2 example stickers, just send them here",
            TagCreationError::AliasIsMainTag => "Aliases have to be distinct from the main tag",
            TagCreationError::ArtistWithoutChannel => "Artist tags require a linked channel (user is optional)",
            TagCreationError::CharacterWithoutUser => "Character tags require a linked user (channel is optional)",
            TagCreationError::UnsupportedCategory(_) => "invalid category",
            TagCreationError::NoCategory => "Pick one of the categories: artist, character",
        }
    }
}

/// The answer of the tag creator's submit button, checked in this order:
/// enough examples, aliases apart from the main tag, an artist or character
/// category, and the link that the category needs.
pub open spec fn tag_creation_check(
    example_count: nat,
    tag_id: Seq<char>,
    aliases: Seq<Seq<char>>,
    category: Option<Category>,
    has_linked_channel: bool,
    has_linked_user: bool,
) -> Result<Category, TagCreationError> {
    if example_count < EXAMPLES_REQUIRED {
        Err(TagCreationError::TooFewExamples)
    } else if has_text(aliases, tag_id) {
        Err(TagCreationError::AliasIsMainTag)
    } else {
        match category {
            Some(Category::Artist) => if has_linked_channel { Ok(Category::Artist) } else { Err(TagCreationError::ArtistWithoutChannel) },
            Some(Category::Character) => if has_linked_user { Ok(Category::Character) } else { Err(TagCreationError::CharacterWithoutUser) },
            Some(c) => Err(TagCreationError::UnsupportedCategory(c)),
            None => Err(TagCreationError::NoCategory),
        }
    }
}

/// Checks the tag creator's state before the tag is submitted for review;
/// gives the category that the tag is submitted with.
pub fn check_tag_creation(
    example_sticker_ids: &Vec<String>,
    tag_id: &String,
    aliases: &Vec<String>,
    category: Option<Category>,
    has_linked_channel: bool,
    has_linked_user: bool,
) -> (r: Result<Category, TagCreationError>)
    ensures
        r == tag_creation_check(example_sticker_ids@.len(), tag_id@, texts(aliases@), category, has_linked_channel, has_linked_user),
{
    if example_sticker_ids.len() < EXAMPLES_REQUIRED {
        return Err(TagCreationError::TooFewExamples);
    }
    if contains_text(aliases, tag_id) {
        return Err(TagCreationError::AliasIsMainTag);
    }
    match category {
        Some(Category::Artist) => if has_linked_channel { Ok(Category::Artist) } else { Err(TagCreationError::ArtistWithoutChannel) },
        Some(Category::Character) => if has_linked_user { Ok(Category::Character) } else { Err(TagCreationError::CharacterWithoutUser) },
        Some(c) => Err(TagCreationError::UnsupportedCategory(c)),
        None => Err(TagCreationError::NoCategory),
    }
}

/// A tag goes to review only with at least `EXAMPLES_REQUIRED` examples,
/// aliases apart from its id, and as an artist tag with a linked channel or
/// a character tag with a linked user; the first unmet condition, in that
/// order, is the refusal.
pub proof fn lemma_tag_creation(
    example_count: nat,
    tag_id: Seq<char>,
    aliases: Seq<Seq<char>>,
    category: Option<Category>,
    has_linked_channel: bool,
    has_linked_user: bool,
)
    ensures ({
        let r = tag_creation_check(example_count, tag_id, aliases, category, has_linked_channel, has_linked_user);
        &&& example_count < 2 ==> r == Err::<Category, TagCreationError>(TagCreationError::TooFewExamples)
        &&& example_count >= 2 && has_text(aliases, tag_id) ==> r == Err::<Category, TagCreationError>(TagCreationError::AliasIsMainTag)
        &&& r matches Ok(c) ==> example_count >= 2 && !has_text(aliases, tag_id) && category == Some(c)
            && ((c == Category::Artist && has_linked_channel) || (c == Category::Character && has_linked_user))
        &&& example_count >= 2 && !has_text(aliases, tag_id) ==> {
            &&& category == Some(Category::Artist) ==> r == (if has_linked_channel { Ok(Category::Artist) } else { Err(TagCreationError::ArtistWithoutChannel) })
            &&& category == Some(Category::Character) ==> r == (if has_linked_user { Ok(Category::Character) } else { Err(TagCreationError::CharacterWithoutUser) })
            &&& category is None ==> r == Err::<Category, TagCreationError>(TagCreationError::NoCategory)
            &&& (category matches Some(c) && c != Category::Artist && c != Category::Character)
                ==> r == Err::<Category, TagCreationError>(TagCreationError::UnsupportedCategory(category->0))
        }
    }),
{
}

} // verus!
