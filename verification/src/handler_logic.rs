//! Decisions of the update handlers that do not need the bot or the
//! database: the file name of a downloaded sticker, the tags that go with a
//! removed continuous tag, tags that could not be matched, and a message
//! that asks for one emoji.
use vstd::prelude::*;
use crate::chars::{in_class, lemma_span_len_facts, lists, texts, lemma_trailing_len, push_str, span, string_of, to_chars, trailing_len, CharClass};
use crate::emoji::{emoji_at, parse_emoji_at, Emoji};
use crate::errors::UserError;
use crate::inline_data::ms0;
use crate::chars::{has_prefix, matches_at};

verus! {

/// The name under which a sticker file is sent: `sticker.` and the
/// extension of its path (what follows the last `.`), or `sticker.bin`
/// where the path has no `.`.
pub open spec fn sticker_name(path: Seq<char>) -> Seq<char> {
    let k = trailing_len(path, CharClass::NotDot) as int;
    if k >= path.len() {
        "sticker.bin"@
    } else {
        "sticker."@ + path.skip(path.len() - k)
    }
}

/// The name under which a sticker file is sent.
pub fn create_sticker_name(path: String) -> (r: String)
    ensures
        r@ == sticker_name(path@),
{
    let v = to_chars(path.as_str());
    let mut b = v.len();
    while b > 0 && v[b - 1] != '.'
        invariant
            0 <= b <= v@.len(),
            forall|i: int| b <= i < v@.len() ==> in_class(#[trigger] v@[i], CharClass::NotDot),
        decreases b,
    {
        b = b - 1;
    }
    proof {
        lemma_trailing_len(v@, CharClass::NotDot, v@.len() - b);
    }
    if b == 0 {
        "sticker.bin".to_owned()
    } else {
        let mut r = String::new();
        push_str(&mut r, "sticker.");
        let ext = string_of(&v, b, v.len());
        push_str(&mut r, ext.as_str());
        proof {
            assert(v@.subrange(b as int, v@.len() as int) =~= v@.skip(b as int));
            assert(Seq::<char>::empty() + "sticker."@ + v@.skip(b as int) =~= "sticker."@ + v@.skip(b as int));
        }
        r
    }
}

/// The tags of `current` whose implications hold `tag`, in order.
pub open spec fn implying(tag: Seq<char>, current: Seq<String>, implications: Seq<Option<Vec<String>>>) -> Seq<Seq<char>>
    decreases current.len(),
{
    if current.len() == 0 {
        Seq::empty()
    } else {
        let rest = implying(tag, current.drop_last(), implications.drop_last());
        let i = current.len() - 1;
        if implications[i] matches Some(imps) && lists(imps@, tag) {
            rest.push(current[i]@)
        } else {
            rest
        }
    }
}

fn lists_exec(v: &Vec<String>, t: &String) -> (r: bool)
    ensures
        r == lists(v@, t@),
{
    let mut i: usize = 0;
    while i < v.len()
        invariant
            0 <= i <= v@.len(),
            forall|j: int| 0 <= j < i ==> v@[j]@ != t@,
        decreases v@.len() - i,
    {
        if v[i] == *t {
            return true;
        }
        i = i + 1;
    }
    false
}

/// The tags to take off a continuous tag list with `tag`: those whose
/// implications (`implications[i]` for `current[i]`, `None` where the tag
/// is unknown) hold `tag`, in order, and then `tag` itself.
pub fn tags_that_should_be_removed(tag: String, current: &Vec<String>, implications: &Vec<Option<Vec<String>>>) -> (r: Vec<String>)
    requires
        implications@.len() == current@.len(),
    ensures
        texts(r@) == implying(tag@, current@, implications@).push(tag@),
{
    let mut out: Vec<String> = Vec::new();
    let mut i: usize = 0;
    while i < current.len()
        invariant
            0 <= i <= current@.len(),
            implications@.len() == current@.len(),
            texts(out@) == implying(tag@, current@.take(i as int), implications@.take(i as int)),
        decreases current@.len() - i,
    {
        let ghost before = out@;
        let keep = match &implications[i] {
            Some(imps) => lists_exec(imps, &tag),
            None => false,
        };
        if keep {
            out.push(current[i].clone());
        }
        proof {
            let c = current@.take(i + 1);
            let m = implications@.take(i + 1);
            assert(c.drop_last() =~= current@.take(i as int));
            assert(m.drop_last() =~= implications@.take(i as int));
            assert(c[c.len() - 1] == current@[i as int]);
            assert(m[m.len() - 1] == implications@[i as int]);
            if keep {
                assert(texts(out@) =~= texts(before).push(current@[i as int]@));
            } else {
                assert(texts(out@) =~= texts(before));
            }
        }
        i = i + 1;
    }
    let ghost before = out@;
    out.push(tag);
    proof {
        assert(current@.take(current@.len() as int) =~= current@);
        assert(implications@.take(implications@.len() as int) =~= implications@);
        assert(texts(out@) =~= texts(before).push(out@[out@.len() - 1]@));
    }
    out
}

/// The inputs whose tag could not be matched (`None`), in order.
pub open spec fn unmatched(closest: Seq<(String, Option<String>)>) -> Seq<Seq<char>>
    decreases closest.len(),
{
    if closest.len() == 0 {
        Seq::empty()
    } else {
        let rest = unmatched(closest.drop_last());
        match closest.last().1 {
            None => rest.push(closest.last().0@),
            Some(_) => rest,
        }
    }
}

/// The matched tags, in order.
pub open spec fn matched(closest: Seq<(String, Option<String>)>) -> Seq<Seq<char>>
    decreases closest.len(),
{
    if closest.len() == 0 {
        Seq::empty()
    } else {
        let rest = matched(closest.drop_last());
        match closest.last().1 {
            Some(t) => rest.push(t@),
            None => rest,
        }
    }
}

/// The matched tags of each input (`None` where none matched): all of them
/// where every input matched, else an error that names the inputs that
/// did not.
pub fn treat_missing_tags_as_errors(closest_tags: Vec<(String, Option<String>)>) -> (r: Result<Vec<String>, UserError>)
    ensures
        unmatched(closest_tags@).len() == 0 ==> (r matches Ok(tags) && texts(tags@) == matched(closest_tags@)),
        unmatched(closest_tags@).len() > 0 ==> (r matches Err(UserError::TagsNotFound(missing)) && texts(missing@) == unmatched(closest_tags@)),
{
    let mut missing: Vec<String> = Vec::new();
    let mut found: Vec<String> = Vec::new();
    let mut i: usize = 0;
    while i < closest_tags.len()
        invariant
            0 <= i <= closest_tags@.len(),
            texts(missing@) == unmatched(closest_tags@.take(i as int)),
            texts(found@) == matched(closest_tags@.take(i as int)),
        decreases closest_tags@.len() - i,
    {
        let ghost m0 = missing@;
        let ghost f0 = found@;
        match &closest_tags[i].1 {
            None => missing.push(closest_tags[i].0.clone()),
            Some(t) => found.push(t.clone()),
        }
        proof {
            let c = closest_tags@.take(i + 1);
            assert(c.drop_last() =~= closest_tags@.take(i as int));
            assert(c.last() == closest_tags@[i as int]);
            match closest_tags@[i as int].1 {
                None => {
                    assert(texts(missing@) =~= texts(m0).push(closest_tags@[i as int].0@));
                    assert(texts(found@) =~= texts(f0));
                },
                Some(t) => {
                    assert(texts(found@) =~= texts(f0).push(t@));
                    assert(texts(missing@) =~= texts(m0));
                },
            }
        }
        i = i + 1;
    }
    proof {
        assert(closest_tags@.take(closest_tags@.len() as int) =~= closest_tags@);
    }
    if missing.len() == 0 {
        Ok(found)
    } else {
        Err(UserError::TagsNotFound(missing))
    }
}

/// A message that is one emoji with blanks around it: the emoji.
pub open spec fn single_emoji(s: Seq<char>) -> Option<Seq<char>> {
    match emoji_at(s, ms0(s, 0)) {
        Some((e, b)) => if ms0(s, b) == s.len() { Some(e) } else { None },
        None => None,
    }
}

/// The emoji that a message asks for, where it is one emoji with blanks
/// (space, tab, CR, LF) around it.
pub fn emoji_search_command(input: &str) -> (r: Option<Emoji>)
    ensures
        r matches Some(e) ==> single_emoji(input@) == Some(e@),
        r is None ==> single_emoji(input@) is None,
{
    let v = to_chars(input);
    let a = span(&v, 0, CharClass::MultiSpace);
    proof {
        lemma_span_len_facts(v@.skip(0), CharClass::MultiSpace);
    }
    match parse_emoji_at(&v, a) {
        Some((e, b)) => {
            let c = span(&v, b, CharClass::MultiSpace);
            if c == v.len() {
                Some(e)
            } else {
                None
            }
        },
        None => None,
    }
}

/// What the logic reads of a URL: its host and its path.
#[derive(Debug, Clone, PartialEq, Eq)]
pub struct UrlParts {
    pub host: Option<String>,
    pub path: String,
}

/// The host and path of the URL that a text denotes, if it denotes one.
pub uninterp spec fn url_parts(text: Seq<char>) -> Option<(Option<Seq<char>>, Seq<char>)>;

/// `url::Url::parse(text)`, and of the URL its `host_str()` and `path()`:
/// `None` where the text is not an absolute URL.  The result is named
/// `url_parts`; what the URL standard's parser makes of a text is not
/// stated here.
#[verifier::external_body]
fn parse_url(text: &str) -> (r: Option<UrlParts>)
    ensures
        r matches Some(p) ==> url_parts(text@) == Some((crate::inline_data::opt_str_view(p.host), p.path@)),
        r is None ==> url_parts(text@) is None,
{
    match url::Url::parse(text) {
        Ok(u) => Some(UrlParts { host: u.host_str().map(|h| h.to_string()), path: u.path().to_string() }),
        Err(_) => None,
    }
}

/// `s` without the leading repetitions of `pat` (`str::trim_start_matches`).
pub open spec fn trim_start_repeated(s: Seq<char>, pat: Seq<char>) -> Seq<char>
    decreases s.len(),
{
    if pat.len() > 0 && has_prefix(s, pat) {
        trim_start_repeated(s.skip(pat.len() as int), pat)
    } else {
        s
    }
}

/// `s` without its trailing slashes (`str::trim_end_matches('/')`).
pub open spec fn trim_end_slashes(s: Seq<char>) -> Seq<char> {
    s.take(s.len() - trailing_len(s, CharClass::Slash))
}

/// The sticker set that a link names: a `t.me` link whose path starts with
/// `/addstickers/`; the name is the rest of the path, without repeated
/// `/addstickers/` at its start and without slashes at its end.
pub open spec fn sticker_set_name(host: Option<Seq<char>>, path: Seq<char>) -> Option<Seq<char>> {
    if host == Some("t.me"@) && has_prefix(path, "/addstickers/"@) {
        Some(trim_end_slashes(trim_start_repeated(path, "/addstickers/"@)))
    } else {
        None
    }
}

/// The sticker set that a link names, if it is a sticker set link.
pub fn get_sticker_set_name_from_url(url: &UrlParts) -> (r: Option<String>)
    ensures
        r matches Some(n) ==> sticker_set_name(crate::inline_data::opt_str_view(url.host), url.path@) == Some(n@),
        r is None ==> sticker_set_name(crate::inline_data::opt_str_view(url.host), url.path@) is None,
{
    let is_tme = match &url.host {
        Some(h) => crate::command::text_eq(h.as_str(), "t.me"),
        None => false,
    };
    let v = to_chars(url.path.as_str());
    proof {
        assert(v@.skip(0) =~= v@);
    }
    if !is_tme || !matches_at(&v, 0, "/addstickers/") {
        return None;
    }
    let p = to_chars("/addstickers/");
    let n = p.len();
    let mut a: usize = 0;
    proof {
        reveal_strlit("/addstickers/");
        assert(v@.skip(0) =~= v@);
    }
    while n <= v.len() - a && matches_at(&v, a, "/addstickers/")
        invariant
            0 <= a <= v@.len(),
            n == 13,
            "/addstickers/"@.len() == 13,
            p@ == "/addstickers/"@,
            trim_start_repeated(v@, "/addstickers/"@) == trim_start_repeated(v@.skip(a as int), "/addstickers/"@),
        decreases v@.len() - a,
    {
        proof {
            assert(v@.skip(a as int).skip(13) =~= v@.skip(a + 13));
            assert(trim_start_repeated(v@.skip(a as int), "/addstickers/"@)
                == trim_start_repeated(v@.skip(a as int).skip(13), "/addstickers/"@));
        }
        a = a + n;
    }
    assert(!has_prefix(v@.skip(a as int), "/addstickers/"@));
    let mut b = v.len();
    while b > a && v[b - 1] == '/'
        invariant
            a <= b <= v@.len(),
            forall|i: int| b <= i < v@.len() ==> in_class(#[trigger] v@[i], CharClass::Slash),
        decreases b,
    {
        b = b - 1;
    }
    let ghost rest = v@.skip(a as int);
    proof {
        let k = v@.len() - b;
        assert forall|i: int| rest.len() - k <= i < rest.len() implies in_class(#[trigger] rest[i], CharClass::Slash) by {
            assert(rest[i] == v@[a + i]);
        }
        if b > a {
            assert(rest[rest.len() - k - 1] == v@[b - 1]);
        }
        lemma_trailing_len(rest, CharClass::Slash, k);
        assert(rest.take(rest.len() - k) =~= v@.subrange(a as int, b as int));
    }
    Some(string_of(&v, a, b))
}

/// The sticker set that the link text names, if it is a sticker set link.
pub fn sticker_set_name_from_link(text: &str) -> (r: Option<String>)
    ensures
        url_parts(text@) is None ==> r is None,
        url_parts(text@) matches Some((host, path)) ==> (match sticker_set_name(host, path) {
            Some(n) => r matches Some(m) && m@ == n,
            None => r is None,
        }),
{
    match parse_url(text) {
        Some(parts) => get_sticker_set_name_from_url(&parts),
        None => None,
    }
}

} // verus!
