//! The data export: which stickers each set holds, and for each sticker file
//! the stickers that show it and its tags, grouped from the relations that
//! the database lists.
use vstd::prelude::*;

verus! {

/// One sticker file of the export: the stickers that show it and its tags.
#[derive(Debug, Clone, PartialEq, Eq)]
pub struct ExportedStickerFile {
    pub sticker_ids: Vec<String>,
    pub tags: Vec<String>,
}

impl ExportedStickerFile {
    /// A file with no stickers and no tags.
    pub fn new() -> (f: Self)
        ensures
            f.sticker_ids@ == Seq::<String>::empty(),
            f.tags@ == Seq::<String>::empty(),
    {
        ExportedStickerFile { sticker_ids: Vec::new(), tags: Vec::new() }
    }

    /// Adds a sticker that shows the file.
    pub fn add_sticker(&mut self, sticker_unique_id: String)
        ensures
            final(self).sticker_ids@ == old(self).sticker_ids@.push(sticker_unique_id),
            final(self).tags@ == old(self).tags@,
    {
        self.sticker_ids.push(sticker_unique_id);
    }

    /// Adds a tag of the file.
    pub fn add_tag(&mut self, tag: String)
        ensures
            final(self).tags@ == old(self).tags@.push(tag),
            final(self).sticker_ids@ == old(self).sticker_ids@,
    {
        self.tags.push(tag);
    }
}

/// The exported data: each set with its stickers, and the sticker files.
#[derive(Debug, Clone, PartialEq, Eq)]
pub struct ExportedData {
    pub sets: Vec<(String, Vec<String>)>,
    pub files: Vec<ExportedStickerFile>,
}

/// A relation as pairs of texts, key first.
pub open spec fn keyed(rel: Seq<(String, String)>, key_first: bool) -> Seq<(Seq<char>, Seq<char>)> {
    rel.map_values(|p: (String, String)| if key_first { (p.0@, p.1@) } else { (p.1@, p.0@) })
}

/// The values that the relation gives the key `k`, in the relation's order.
pub open spec fn values_for(rel: Seq<(Seq<char>, Seq<char>)>, k: Seq<char>) -> Seq<Seq<char>>
    decreases rel.len(),
{
    if rel.len() == 0 {
        Seq::empty()
    } else if rel.last().0 == k {
        values_for(rel.drop_last(), k).push(rel.last().1)
    } else {
        values_for(rel.drop_last(), k)
    }
}

/// The relation gives the key `k` some value.
pub open spec fn has_key(rel: Seq<(Seq<char>, Seq<char>)>, k: Seq<char>) -> bool {
    exists|i: int| 0 <= i < rel.len() && #[trigger] rel[i].0 == k
}

/// `groups` has one entry per key of the relation, with the key's values.
pub open spec fn is_grouping(groups: Seq<(String, Vec<String>)>, rel: Seq<(Seq<char>, Seq<char>)>) -> bool {
    &&& forall|i: int, j: int| 0 <= i < j < groups.len() ==> #[trigger] groups[i].0@ != #[trigger] groups[j].0@
    &&& forall|i: int| 0 <= i < groups.len() ==> has_key(rel, #[trigger] groups[i].0@)
    &&& forall|i: int| 0 <= i < groups.len() ==> (#[trigger] groups[i].1).deep_view() == values_for(rel, groups[i].0@)
    &&& forall|k: Seq<char>| has_key(rel, k) ==> exists|i: int| 0 <= i < groups.len() && #[trigger] groups[i].0@ == k
}

proof fn lemma_values_for_step(rel: Seq<(Seq<char>, Seq<char>)>, i: int, k: Seq<char>)
    requires
        0 <= i < rel.len(),
    ensures
        values_for(rel.take(i + 1), k) == (if rel[i].0 == k { values_for(rel.take(i), k).push(rel[i].1) } else { values_for(rel.take(i), k) }),
{
    assert(rel.take(i + 1).drop_last() =~= rel.take(i));
}

/// The position of the group with key `k`, if there is one.
fn find_group(groups: &Vec<(String, Vec<String>)>, k: &String) -> (r: Option<usize>)
    ensures
        r matches Some(j) ==> j < groups@.len() && groups@[j as int].0@ == k@,
        r is None ==> forall|j: int| 0 <= j < groups@.len() ==> groups@[j].0@ != k@,
{
    let mut j: usize = 0;
    while j < groups.len()
        invariant
            0 <= j <= groups@.len(),
            forall|m: int| 0 <= m < j ==> groups@[m].0@ != k@,
        decreases groups@.len() - j,
    {
        if groups[j].0 == *k {
            return Some(j);
        }
        j = j + 1;
    }
    None
}

/// Groups the values of a relation by key (`key_first`: the key is the
/// first of each pair, else the second).
pub fn group_relation(rel: &Vec<(String, String)>, key_first: bool) -> (groups: Vec<(String, Vec<String>)>)
    ensures
        is_grouping(groups@, keyed(rel@, key_first)),
{
    let ghost kr = keyed(rel@, key_first);
    let mut groups: Vec<(String, Vec<String>)> = Vec::new();
    let mut i: usize = 0;
    proof {
        assert(kr.take(0) =~= Seq::<(Seq<char>, Seq<char>)>::empty());
    }
    while i < rel.len()
        invariant
            0 <= i <= rel@.len(),
            kr == keyed(rel@, key_first),
            kr.len() == rel@.len(),
            is_grouping(groups@, kr.take(i as int)),
        decreases rel@.len() - i,
    {
        let (k, v) = if key_first { (rel[i].0.clone(), rel[i].1.clone()) } else { (rel[i].1.clone(), rel[i].0.clone()) };
        let ghost old_groups = groups@;
        let ghost pre = kr.take(i as int);
        let ghost post = kr.take(i + 1);
        assert(kr[i as int] == (k@, v@));
        proof {
            assert forall|kk: Seq<char>| #[trigger] values_for(post, kk) == (if kk == k@ { values_for(pre, kk).push(v@) } else { values_for(pre, kk) }) by {
                lemma_values_for_step(kr, i as int, kk);
            }
            assert forall|kk: Seq<char>| has_key(post, kk) <==> (has_key(pre, kk) || kk == k@) by {
                if has_key(post, kk) {
                    let m = choose|m: int| 0 <= m < post.len() && #[trigger] post[m].0 == kk;
                    if m < i {
                        assert(pre[m] == post[m]);
                    }
                }
                if has_key(pre, kk) {
                    let m = choose|m: int| 0 <= m < pre.len() && #[trigger] pre[m].0 == kk;
                    assert(post[m] == pre[m]);
                }
                if kk == k@ {
                    assert(post[i as int].0 == kk);
                }
            }
        }
        match find_group(&groups, &k) {
            Some(j) => {
                let ghost old_entry = groups@[j as int];
                groups[j].1.push(v);
                proof {
                    assert(groups@[j as int].0 == old_entry.0);
                    assert(groups@[j as int].1.deep_view() =~= old_entry.1.deep_view().push(v@));
                    assert forall|m: int| 0 <= m < groups@.len() && m != j implies #[trigger] groups@[m] == old_groups[m] by {}
                    assert forall|m: int| 0 <= m < groups@.len() implies (#[trigger] groups@[m].1).deep_view() == values_for(post, groups@[m].0@) by {
                        if m != j {
                            assert(groups@[m] == old_groups[m]);
                        }
                    }
                    assert forall|kk: Seq<char>| has_key(post, kk) implies exists|m: int| 0 <= m < groups@.len() && #[trigger] groups@[m].0@ == kk by {
                        if has_key(pre, kk) {
                            let m = choose|m: int| 0 <= m < old_groups.len() && #[trigger] old_groups[m].0@ == kk;
                            assert(groups@[m].0@ == kk);
                        } else {
                            assert(groups@[j as int].0@ == kk);
                        }
                    }
                    assert forall|a: int, b: int| 0 <= a < b < groups@.len() implies #[trigger] groups@[a].0@ != #[trigger] groups@[b].0@ by {
                        assert(groups@[a].0 == old_groups[a].0);
                        assert(groups@[b].0 == old_groups[b].0);
                    }
                    assert forall|m: int| 0 <= m < groups@.len() implies has_key(post, #[trigger] groups@[m].0@) by {
                        assert(groups@[m].0 == old_groups[m].0);
                    }
                }
            },
            None => {
                let mut vals: Vec<String> = Vec::new();
                vals.push(v);
                groups.push((k, vals));
                proof {
                    let n = old_groups.len();
                    assert(!has_key(pre, k@)) by {
                        if has_key(pre, k@) {
                            let m = choose|m: int| 0 <= m < old_groups.len() && #[trigger] old_groups[m].0@ == k@;
                            assert(groups@[m] == old_groups[m]);
                        }
                    }
                    assert(values_for(pre, k@) =~= Seq::<Seq<char>>::empty()) by {
                        lemma_values_for_absent(pre, k@);
                    }
                    assert(groups@[n as int].1.deep_view() =~= seq![v@]);
                    assert forall|m: int| 0 <= m < groups@.len() implies (#[trigger] groups@[m].1).deep_view() == values_for(post, groups@[m].0@) by {
                        if m < n {
                            assert(groups@[m] == old_groups[m]);
                        }
                    }
                    assert forall|kk: Seq<char>| has_key(post, kk) implies exists|m: int| 0 <= m < groups@.len() && #[trigger] groups@[m].0@ == kk by {
                        if has_key(pre, kk) {
                            let m = choose|m: int| 0 <= m < old_groups.len() && #[trigger] old_groups[m].0@ == kk;
                            assert(groups@[m].0@ == kk);
                        } else {
                            assert(groups@[n as int].0@ == kk);
                        }
                    }
                    assert forall|a: int, b: int| 0 <= a < b < groups@.len() implies #[trigger] groups@[a].0@ != #[trigger] groups@[b].0@ by {
                        if b < n {
                            assert(groups@[a] == old_groups[a]);
                            assert(groups@[b] == old_groups[b]);
                        } else {
                            assert(groups@[a] == old_groups[a]);
                        }
                    }
                    assert forall|m: int| 0 <= m < groups@.len() implies has_key(post, #[trigger] groups@[m].0@) by {
                        if m < n {
                            assert(groups@[m] == old_groups[m]);
                        }
                    }
                }
            },
        }
        i = i + 1;
    }
    proof {
        assert(kr.take(rel@.len() as int) =~= kr);
    }
    groups
}


/// The values that a relation without pairs gives: none.
pub open spec fn no_pairs() -> Seq<(Seq<char>, Seq<char>)> {
    Seq::empty()
}

/// `files` has one entry per file id that either relation names, with the
/// stickers that `stickers` and the tags that `tags` give it.
pub open spec fn files_match(
    files: Seq<(String, ExportedStickerFile)>,
    stickers: Seq<(Seq<char>, Seq<char>)>,
    tags: Seq<(Seq<char>, Seq<char>)>,
) -> bool {
    &&& forall|i: int, j: int| 0 <= i < j < files.len() ==> #[trigger] files[i].0@ != #[trigger] files[j].0@
    &&& forall|i: int| 0 <= i < files.len() ==> has_key(stickers, #[trigger] files[i].0@) || has_key(tags, files[i].0@)
    &&& forall|i: int| 0 <= i < files.len() ==> (#[trigger] files[i].1).sticker_ids.deep_view() == values_for(stickers, files[i].0@)
    &&& forall|i: int| 0 <= i < files.len() ==> (#[trigger] files[i].1).tags.deep_view() == values_for(tags, files[i].0@)
    &&& forall|k: Seq<char>| has_key(stickers, k) || has_key(tags, k) ==> exists|i: int| 0 <= i < files.len() && #[trigger] files[i].0@ == k
}

/// The relation in the place of stickers or of tags, the other one beside it.
pub open spec fn pick(to_tags: bool, this: Seq<(Seq<char>, Seq<char>)>, other: Seq<(Seq<char>, Seq<char>)>, want_tags: bool) -> Seq<(Seq<char>, Seq<char>)> {
    if to_tags == want_tags { this } else { other }
}

fn find_file(files: &Vec<(String, ExportedStickerFile)>, k: &String) -> (r: Option<usize>)
    ensures
        r matches Some(j) ==> j < files@.len() && files@[j as int].0@ == k@,
        r is None ==> forall|j: int| 0 <= j < files@.len() ==> files@[j].0@ != k@,
{
    let mut j: usize = 0;
    while j < files.len()
        invariant
            0 <= j <= files@.len(),
            forall|m: int| 0 <= m < j ==> files@[m].0@ != k@,
        decreases files@.len() - j,
    {
        if files[j].0 == *k {
            return Some(j);
        }
        j = j + 1;
    }
    None
}

/// Adds the pairs of a relation to the files: as stickers, or as tags
/// where `to_tags`.
fn add_relation(
    files: &mut Vec<(String, ExportedStickerFile)>,
    rel: &Vec<(String, String)>,
    key_first: bool,
    to_tags: bool,
    Ghost(other): Ghost<Seq<(Seq<char>, Seq<char>)>>,
)
    requires
        files_match(old(files)@, pick(to_tags, no_pairs(), other, false), pick(to_tags, no_pairs(), other, true)),
    ensures
        files_match(final(files)@, pick(to_tags, keyed(rel@, key_first), other, false), pick(to_tags, keyed(rel@, key_first), other, true)),
{
    let ghost kr = keyed(rel@, key_first);
    let mut i: usize = 0;
    proof {
        assert(kr.take(0) =~= no_pairs());
    }
    while i < rel.len()
        invariant
            0 <= i <= rel@.len(),
            kr == keyed(rel@, key_first),
            kr.len() == rel@.len(),
            files_match(files@, pick(to_tags, kr.take(i as int), other, false), pick(to_tags, kr.take(i as int), other, true)),
        decreases rel@.len() - i,
    {
        let (k, v) = if key_first { (rel[i].0.clone(), rel[i].1.clone()) } else { (rel[i].1.clone(), rel[i].0.clone()) };
        let ghost old_files = files@;
        let ghost pre = kr.take(i as int);
        let ghost post = kr.take(i + 1);
        assert(kr[i as int] == (k@, v@));
        proof {
            assert forall|kk: Seq<char>| #[trigger] values_for(post, kk) == (if kk == k@ { values_for(pre, kk).push(v@) } else { values_for(pre, kk) }) by {
                lemma_values_for_step(kr, i as int, kk);
            }
            assert forall|kk: Seq<char>| has_key(post, kk) <==> (has_key(pre, kk) || kk == k@) by {
                if has_key(post, kk) {
                    let m = choose|m: int| 0 <= m < post.len() && #[trigger] post[m].0 == kk;
                    if m < i {
                        assert(pre[m] == post[m]);
                    }
                }
                if has_key(pre, kk) {
                    let m = choose|m: int| 0 <= m < pre.len() && #[trigger] pre[m].0 == kk;
                    assert(post[m] == pre[m]);
                }
                if kk == k@ {
                    assert(post[i as int].0 == kk);
                }
            }
        }
        let ghost ps = pick(to_tags, post, other, false);
        let ghost pt = pick(to_tags, post, other, true);
        match find_file(files, &k) {
            Some(j) => {
                let ghost old_entry = files@[j as int];
                if to_tags {
                    files[j].1.add_tag(v);
                } else {
                    files[j].1.add_sticker(v);
                }
                proof {
                    assert(files@[j as int].0 == old_entry.0);
                    if to_tags {
                        assert(files@[j as int].1.tags.deep_view() =~= old_entry.1.tags.deep_view().push(v@));
                        assert(files@[j as int].1.sticker_ids.deep_view() =~= old_entry.1.sticker_ids.deep_view());
                    } else {
                        assert(files@[j as int].1.sticker_ids.deep_view() =~= old_entry.1.sticker_ids.deep_view().push(v@));
                        assert(files@[j as int].1.tags.deep_view() =~= old_entry.1.tags.deep_view());
                    }
                    assert forall|m: int| 0 <= m < files@.len() && m != j implies #[trigger] files@[m] == old_files[m] by {}
                    assert forall|m: int| 0 <= m < files@.len() implies (#[trigger] files@[m].1).sticker_ids.deep_view() == values_for(ps, files@[m].0@) by {
                        if m != j {
                            assert(files@[m] == old_files[m]);
                        }
                    }
                    assert forall|m: int| 0 <= m < files@.len() implies (#[trigger] files@[m].1).tags.deep_view() == values_for(pt, files@[m].0@) by {
                        if m != j {
                            assert(files@[m] == old_files[m]);
                        }
                    }
                    assert forall|kk: Seq<char>| has_key(ps, kk) || has_key(pt, kk) implies exists|m: int| 0 <= m < files@.len() && #[trigger] files@[m].0@ == kk by {
                        if kk == k@ {
                            assert(files@[j as int].0@ == kk);
                        } else {
                            let m = choose|m: int| 0 <= m < old_files.len() && #[trigger] old_files[m].0@ == kk;
                            assert(files@[m].0@ == kk);
                        }
                    }
                    assert forall|a: int, b: int| 0 <= a < b < files@.len() implies #[trigger] files@[a].0@ != #[trigger] files@[b].0@ by {
                        assert(files@[a].0 == old_files[a].0);
                        assert(files@[b].0 == old_files[b].0);
                    }
                    assert forall|m: int| 0 <= m < files@.len() implies has_key(ps, #[trigger] files@[m].0@) || has_key(pt, files@[m].0@) by {
                        assert(files@[m].0 == old_files[m].0);
                    }
                }
            },
            None => {
                let mut f = ExportedStickerFile::new();
                if to_tags {
                    f.add_tag(v);
                } else {
                    f.add_sticker(v);
                }
                files.push((k, f));
                proof {
                    let n = old_files.len();
                    assert(!has_key(pre, k@) && !has_key(other, k@)) by {
                        if has_key(pre, k@) || has_key(other, k@) {
                            let m = choose|m: int| 0 <= m < old_files.len() && #[trigger] old_files[m].0@ == k@;
                            assert(files@[m] == old_files[m]);
                        }
                    }
                    lemma_values_for_absent(pre, k@);
                    lemma_values_for_absent(other, k@);
                    if to_tags {
                        assert(files@[n as int].1.tags.deep_view() =~= seq![v@]);
                        assert(files@[n as int].1.sticker_ids.deep_view() =~= Seq::<Seq<char>>::empty());
                    } else {
                        assert(files@[n as int].1.sticker_ids.deep_view() =~= seq![v@]);
                        assert(files@[n as int].1.tags.deep_view() =~= Seq::<Seq<char>>::empty());
                    }
                    assert forall|m: int| 0 <= m < files@.len() implies (#[trigger] files@[m].1).sticker_ids.deep_view() == values_for(ps, files@[m].0@) by {
                        if m < n {
                            assert(files@[m] == old_files[m]);
                        }
                    }
                    assert forall|m: int| 0 <= m < files@.len() implies (#[trigger] files@[m].1).tags.deep_view() == values_for(pt, files@[m].0@) by {
                        if m < n {
                            assert(files@[m] == old_files[m]);
                        }
                    }
                    assert forall|kk: Seq<char>| has_key(ps, kk) || has_key(pt, kk) implies exists|m: int| 0 <= m < files@.len() && #[trigger] files@[m].0@ == kk by {
                        if kk == k@ {
                            assert(files@[n as int].0@ == kk);
                        } else {
                            let m = choose|m: int| 0 <= m < old_files.len() && #[trigger] old_files[m].0@ == kk;
                            assert(files@[m].0@ == kk);
                        }
                    }
                    assert forall|a: int, b: int| 0 <= a < b < files@.len() implies #[trigger] files@[a].0@ != #[trigger] files@[b].0@ by {
                        assert(files@[a] == old_files[a]);
                        if b < n {
                            assert(files@[b] == old_files[b]);
                        }
                    }
                    assert forall|m: int| 0 <= m < files@.len() implies has_key(ps, #[trigger] files@[m].0@) || has_key(pt, files@[m].0@) by {
                        if m < n {
                            assert(files@[m] == old_files[m]);
                        }
                    }
                }
            },
        }
        i = i + 1;
    }
    proof {
        assert(kr.take(rel@.len() as int) =~= kr);
    }
}

/// The sticker files with their ids: the stickers of each file come from
/// `is_a` (pairs of sticker id and file id), its tags from `tagged` (pairs
/// of file id and tag).
pub fn export_files(is_a: &Vec<(String, String)>, tagged: &Vec<(String, String)>) -> (files: Vec<(String, ExportedStickerFile)>)
    ensures
        files_match(files@, keyed(is_a@, false), keyed(tagged@, true)),
{
    let mut files: Vec<(String, ExportedStickerFile)> = Vec::new();
    proof {
        assert(files_match(files@, no_pairs(), no_pairs()));
    }
    add_relation(&mut files, is_a, false, false, Ghost(no_pairs()));
    add_relation(&mut files, tagged, true, true, Ghost(keyed(is_a@, false)));
    files
}

/// The export: each set with its stickers (from `contains`, pairs of set
/// name and sticker id), and the sticker files (see `export_files`).
pub fn export_data(contains: &Vec<(String, String)>, is_a: &Vec<(String, String)>, tagged: &Vec<(String, String)>) -> (d: ExportedData)
    ensures
        is_grouping(d.sets@, keyed(contains@, true)),
        exists|keyed_files: Seq<(String, ExportedStickerFile)>|
            files_match(keyed_files, keyed(is_a@, false), keyed(tagged@, true))
            && d.files@ == keyed_files.map_values(|e: (String, ExportedStickerFile)| e.1),
{
    let sets = group_relation(contains, true);
    let mut keyed_files = export_files(is_a, tagged);
    let ghost kf = keyed_files@;
    let mut files: Vec<ExportedStickerFile> = Vec::new();
    while keyed_files.len() > 0
        invariant
            keyed_files@.len() <= kf.len(),
            keyed_files@ == kf.take(keyed_files@.len() as int),
            files@.len() + keyed_files@.len() == kf.len(),
            forall|m: int| 0 <= m < files@.len() ==> #[trigger] files@[m] == kf[kf.len() - 1 - m].1,
        decreases keyed_files@.len(),
    {
        let (_, f) = keyed_files.pop().unwrap();
        files.push(f);
    }
    let ghost rev = kf.reverse();
    assert(files_match(rev, keyed(is_a@, false), keyed(tagged@, true))) by {
        assert forall|m: int| 0 <= m < rev.len() implies #[trigger] rev[m] == kf[kf.len() - 1 - m] by {}
        assert forall|a: int, b: int| 0 <= a < b < rev.len() implies #[trigger] rev[a].0@ != #[trigger] rev[b].0@ by {
            assert(rev[a] == kf[kf.len() - 1 - a]);
            assert(rev[b] == kf[kf.len() - 1 - b]);
        }
        assert forall|k: Seq<char>| has_key(keyed(is_a@, false), k) || has_key(keyed(tagged@, true), k) implies exists|m: int| 0 <= m < rev.len() && #[trigger] rev[m].0@ == k by {
            let m = choose|m: int| 0 <= m < kf.len() && #[trigger] kf[m].0@ == k;
            assert(rev[kf.len() - 1 - m] == kf[m]);
        }
    }
    assert(files@ =~= rev.map_values(|e: (String, ExportedStickerFile)| e.1));
    ExportedData { sets, files }
}

proof fn lemma_values_for_absent(rel: Seq<(Seq<char>, Seq<char>)>, k: Seq<char>)
    requires
        !has_key(rel, k),
    ensures
        values_for(rel, k) == Seq::<Seq<char>>::empty(),
    decreases rel.len(),
{
    if rel.len() > 0 {
        let d = rel.drop_last();
        assert(!has_key(d, k)) by {
            if has_key(d, k) {
                let m = choose|m: int| 0 <= m < d.len() && #[trigger] d[m].0 == k;
                assert(rel[m] == d[m]);
            }
        }
        assert(rel[rel.len() - 1].0 != k);
        lemma_values_for_absent(d, k);
    }
}

} // verus!
