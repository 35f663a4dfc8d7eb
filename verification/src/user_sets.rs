//! The inline results that offer the user's own sticker sets for a
//! sticker: which sets are offered for the typed title, and the commands
//! that the results send.
use vstd::prelude::*;
use crate::chars::{push_str, to_chars};

verus! {

/// What `str::to_lowercase` gives for a text (Unicode lower case).
pub uninterp spec fn lowercase(s: Seq<char>) -> Seq<char>;

/// `str::to_lowercase`: the result is named `lowercase` of the text.
#[verifier::external_body]
fn to_lowercase(s: &str) -> (r: String)
    ensures
        r@ == lowercase(s@),
{
    s.to_lowercase()
}

/// `n` occurs in `h`.
pub open spec fn has_sub(h: Seq<char>, n: Seq<char>) -> bool {
    exists|i: int| 0 <= i && i + n.len() <= h.len() && #[trigger] h.subrange(i, i + n.len()) == n
}

/// Whether `n` occurs in `h` at position `i`.
fn occurs_at(h: &Vec<char>, n: &Vec<char>, i: usize) -> (r: bool)
    requires
        i + n@.len() <= h@.len(),
    ensures
        r == (h@.subrange(i as int, i + n@.len()) == n@),
{
    let hl = h.len();
    let mut k: usize = 0;
    while k < n.len()
        invariant
            0 <= k <= n@.len(),
            hl == h@.len(),
            i + n@.len() <= h@.len(),
            forall|j: int| 0 <= j < k ==> h@[i + j] == n@[j],
        decreases n@.len() - k,
    {
        if h[i + k] != n[k] {
            assert(h@.subrange(i as int, i + n@.len())[k as int] != n@[k as int]);
            return false;
        }
        k = k + 1;
    }
    assert(h@.subrange(i as int, i + n@.len()) =~= n@);
    true
}

/// Whether `n` occurs in `h`.
fn contains_sub(h: &str, n: &str) -> (r: bool)
    ensures
        r == has_sub(h@, n@),
{
    let hv = to_chars(h);
    let nv = to_chars(n);
    if nv.len() == 0 {
        assert(h@.subrange(0int, 0int + n@.len()) =~= n@);
        return true;
    }
    if nv.len() > hv.len() {
        return false;
    }
    let hl = hv.len();
    let last = hl - nv.len();
    let mut i: usize = 0;
    while i <= last
        invariant
            hl == hv@.len(),
            1 <= nv@.len() <= hl,
            last + nv@.len() == hl,
            i <= last + 1,
            hv@ == h@,
            nv@ == n@,
            forall|j: int| 0 <= j < i ==> #[trigger] hv@.subrange(j, j + nv@.len()) != nv@,
        decreases hl + 1 - i,
    {
        if occurs_at(&hv, &nv, i) {
            return true;
        }
        i = i + 1;
    }
    false
}

/// A set is offered where the lower-cased term occurs in its lower-cased
/// name or title.
pub open spec fn set_matches(id: Seq<char>, title: Option<Seq<char>>, term: Seq<char>) -> bool {
    has_sub(lowercase(id), term) || (title matches Some(t) && has_sub(lowercase(t), term))
}

/// The most results that list the user's sets.
pub const MAX_USER_SETS: usize = 49;

/// Among the first `n` sets, the positions of those offered, up to the
/// first `MAX_USER_SETS`.
pub open spec fn offered_sets(sets: Seq<(String, Option<String>)>, term: Seq<char>, n: int) -> Seq<usize>
    decreases n,
{
    if n <= 0 {
        Seq::empty()
    } else {
        let before = offered_sets(sets, term, n - 1);
        let s = sets[n - 1];
        if before.len() < MAX_USER_SETS && set_matches(s.0@, match s.1 { Some(t) => Some(t@), None => None }, term) {
            before.push((n - 1) as usize)
        } else {
            before
        }
    }
}

/// Which of the user's sets are offered: a set whose lower-cased name, or
/// lower-cased title where it has one, holds the term is offered unless
/// `MAX_USER_SETS` sets before it already are; every offered set is one of
/// the sets and matches so; at most `MAX_USER_SETS` are offered.
pub proof fn lemma_offered_sets(sets: Seq<(String, Option<String>)>, term: Seq<char>, n: int)
    requires
        0 <= n <= sets.len(),
        sets.len() <= usize::MAX,
    ensures
        offered_sets(sets, term, n).len() <= MAX_USER_SETS,
        forall|x: int| 0 <= x < offered_sets(sets, term, n).len() ==> {
            let i = #[trigger] offered_sets(sets, term, n)[x] as int;
            &&& 0 <= i < n
            &&& has_sub(lowercase(sets[i].0@), term) || (sets[i].1 matches Some(t) && has_sub(lowercase(t@), term))
        },
        forall|i: int| 0 <= i < n
            && (has_sub(lowercase(sets[i].0@), term) || (sets[i].1 matches Some(t) && has_sub(lowercase(t@), term)))
            && #[trigger] offered_sets(sets, term, i).len() < MAX_USER_SETS
            ==> offered_sets(sets, term, n).contains(i as usize),
    decreases n,
{
    if n > 0 {
        lemma_offered_sets(sets, term, n - 1);
        let b = offered_sets(sets, term, n - 1);
        let c = offered_sets(sets, term, n);
        assert forall|x: int| 0 <= x < c.len() implies {
            let i = #[trigger] c[x] as int;
            &&& 0 <= i < n
            &&& has_sub(lowercase(sets[i].0@), term) || (sets[i].1 matches Some(t) && has_sub(lowercase(t@), term))
        } by {
            if x < b.len() {
                assert(c[x] == b[x]);
            } else {
                assert(c[x] == (n - 1) as usize);
                assert(((n - 1) as usize) as int == n - 1);
            }
        }
        assert forall|i: int| 0 <= i < n
            && (has_sub(lowercase(sets[i].0@), term) || (sets[i].1 matches Some(t) && has_sub(lowercase(t@), term)))
            && #[trigger] offered_sets(sets, term, i).len() < MAX_USER_SETS
            implies c.contains(i as usize) by {
            if i < n - 1 {
                assert(b.contains(i as usize));
                let x = choose|x: int| 0 <= x < b.len() && b[x] == i as usize;
                if c != b {
                    assert(c[x] == b[x]);
                }
            } else {
                assert(offered_sets(sets, term, i) == b);
                assert(c[c.len() - 1] == i as usize);
            }
        }
    }
}

/// The text that the user typed as a set title, lower-cased (empty where
/// none was typed).
pub open spec fn filter_term(set_title: Option<String>) -> Seq<char> {
    lowercase(match set_title { Some(t) => t@, None => Seq::empty() })
}

/// The positions of the user's sets (name and title) that the results
/// offer for the typed set title: those whose lower-cased name or title
/// holds the lower-cased title, the first `MAX_USER_SETS` of them.
pub fn user_sets_to_offer(sets: &Vec<(String, Option<String>)>, set_title: &Option<String>) -> (r: Vec<usize>)
    ensures
        r@ == offered_sets(sets@, filter_term(*set_title), sets@.len() as int),
{
    let term = match set_title {
        Some(t) => to_lowercase(t.as_str()),
        None => to_lowercase(""),
    };
    proof {
        let raw = match set_title { Some(t) => t@, None => Seq::<char>::empty() };
        if set_title.is_none() {
            assert(""@ =~= Seq::<char>::empty()) by {
                reveal_strlit("");
            }
        }
        assert(term@ == lowercase(raw));
    }
    let mut out: Vec<usize> = Vec::new();
    let mut i: usize = 0;
    while i < sets.len()
        invariant
            0 <= i <= sets@.len(),
            term@ == filter_term(*set_title),
            out@ == offered_sets(sets@, term@, i as int),
        decreases sets@.len() - i,
    {
        if out.len() < MAX_USER_SETS {
            let id_low = to_lowercase(sets[i].0.as_str());
            let mut hit = contains_sub(id_low.as_str(), term.as_str());
            if !hit {
                match &sets[i].1 {
                    Some(t) => {
                        let t_low = to_lowercase(t.as_str());
                        hit = contains_sub(t_low.as_str(), term.as_str());
                    },
                    None => {},
                }
            }
            if hit {
                out.push(i);
            }
        }
        i = i + 1;
    }
    out
}

/// The command that a set's result sends: remove the sticker where the
/// set holds it (under `sticker_in_set`), else add it.
pub open spec fn set_command_text(set_id: Seq<char>, sticker_id: Seq<char>, sticker_in_set: Option<Seq<char>>) -> Seq<char> {
    match sticker_in_set {
        Some(s) => "/removesticker "@ + set_id + " "@ + s,
        None => "/addsticker "@ + set_id + " "@ + sticker_id,
    }
}

/// The command of a set's result.
pub fn set_command(set_id: &str, sticker_id: &str, sticker_in_set: &Option<String>) -> (r: String)
    ensures
        r@ == set_command_text(set_id@, sticker_id@, match *sticker_in_set { Some(s) => Some(s@), None => None }),
{
    let mut r = String::new();
    match sticker_in_set {
        Some(s) => {
            push_str(&mut r, "/removesticker ");
            push_str(&mut r, set_id);
            push_str(&mut r, " ");
            push_str(&mut r, s.as_str());
        },
        None => {
            push_str(&mut r, "/addsticker ");
            push_str(&mut r, set_id);
            push_str(&mut r, " ");
            push_str(&mut r, sticker_id);
        },
    }
    proof {
        match sticker_in_set {
            Some(s) => assert(r@ =~= "/removesticker "@ + set_id@ + " "@ + s@),
            None => assert(r@ =~= "/addsticker "@ + set_id@ + " "@ + sticker_id@),
        }
    }
    r
}

/// The description of a set's result.
pub fn set_description(sticker_in_set: bool) -> (r: &'static str)
    ensures
        r@ == (if sticker_in_set { "❌ Remove from this set"@ } else { "✅ Add to this set"@ }),
{
    if sticker_in_set { "❌ Remove from this set" } else { "✅ Add to this set" }
}

/// The command that creates a new set with the sticker, titled as typed
/// (`Stickers` where no title was typed).
pub fn create_set_command(sticker_id: &str, set_title: &Option<String>) -> (r: String)
    ensures
        r@ == "/createset "@ + sticker_id@ + " "@ + (match *set_title { Some(t) => t@, None => "Stickers"@ }),
{
    let mut r = String::new();
    push_str(&mut r, "/createset ");
    push_str(&mut r, sticker_id);
    push_str(&mut r, " ");
    match set_title {
        Some(t) => push_str(&mut r, t.as_str()),
        None => push_str(&mut r, "Stickers"),
    }
    proof {
        let t = match set_title { Some(t) => t@, None => "Stickers"@ };
        assert(r@ =~= "/createset "@ + sticker_id@ + " "@ + t);
    }
    r
}

} // verus!
