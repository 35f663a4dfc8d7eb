//! Emoji as the bot handles them: kept without the emoji variation selector
//! (U+FE0F), and shown in the fully qualified form of the emoji table.
use vstd::prelude::*;
use crate::chars::{push_char, to_chars, word, word_at, CharClass};

verus! {

/// The emoji variation selector, U+FE0F.
pub open spec fn is_variation_selector(c: char) -> bool {
    c == '\u{fe0f}'
}

/// `s` without its variation selectors.
pub open spec fn strip_variation(s: Seq<char>) -> Seq<char>
    decreases s.len(),
{
    if s.len() == 0 {
        s
    } else if is_variation_selector(s.last()) {
        strip_variation(s.drop_last())
    } else {
        strip_variation(s.drop_last()).push(s.last())
    }
}

/// The fully qualified form that the emoji table gives for a text, if the
/// text is an emoji of the table (fully, minimally or un-qualified).
pub uninterp spec fn qualified_emoji(text: Seq<char>) -> Option<Seq<char>>;

/// `emojis::get(text)` followed by `Emoji::as_str`: the fully qualified form
/// of the emoji, or `None` where the table has no such emoji.  The result is
/// named `qualified_emoji`; which texts the table holds is not stated here.
#[verifier::external_body]
fn lookup_emoji(text: &str) -> (r: Option<String>)
    ensures
        r matches Some(q) ==> qualified_emoji(text@) == Some(q@),
        r is None ==> qualified_emoji(text@) is None,
{
    match emojis::get(text) {
        Some(e) => Some(e.as_str().to_string()),
        None => None,
    }
}

/// An emoji, held without variation selectors.
#[derive(Debug, Clone, PartialEq, Eq)]
pub struct Emoji {
    text: String,
}

impl View for Emoji {
    type V = Seq<char>;

    closed spec fn view(&self) -> Seq<char> {
        self.text@
    }
}

impl DeepView for Emoji {
    type V = Seq<char>;

    open spec fn deep_view(&self) -> Seq<char> {
        self@
    }
}

/// The text shown for an emoji: its fully qualified form where the emoji
/// table knows it, else the text as held.
pub open spec fn with_variant(e: Seq<char>) -> Seq<char> {
    match qualified_emoji(e) {
        Some(q) => q,
        None => e,
    }
}

/// `s` without variation selectors.
pub fn strip_variation_chars(s: &Vec<char>, a: usize, b: usize) -> (r: String)
    requires
        a <= b <= s@.len(),
    ensures
        r@ == strip_variation(s@.subrange(a as int, b as int)),
{
    let mut r = String::new();
    let mut i = a;
    while i < b
        invariant
            a <= i <= b <= s@.len(),
            r@ == strip_variation(s@.subrange(a as int, i as int)),
        decreases b - i,
    {
        let c = s[i];
        proof {
            let t = s@.subrange(a as int, i + 1);
            assert(t.drop_last() == s@.subrange(a as int, i as int));
            assert(t.last() == c);
        }
        if c != '\u{fe0f}' {
            push_char(&mut r, c);
        }
        i = i + 1;
    }
    r
}

impl Emoji {
    /// The emoji written by the text `s` (one emoji, possibly with variation selectors).
    pub fn new_from_string_single(s: &str) -> (e: Emoji)
        ensures
            e@ == strip_variation(s@),
    {
        let v = to_chars(s);
        let text = strip_variation_chars(&v, 0, v.len());
        assert(v@.subrange(0, v@.len() as int) == v@);
        Emoji { text }
    }

    /// A copy of the emoji.
    pub fn duplicate(&self) -> (e: Emoji)
        ensures
            e@ == self@,
    {
        Emoji { text: self.text.clone() }
    }

    /// The emoji without variation selectors.
    pub fn to_string_without_variant(&self) -> (r: String)
        ensures
            r@ == self@,
    {
        self.text.clone()
    }

    /// The emoji in its fully qualified form.
    pub fn to_string_with_variant(&self) -> (r: String)
        ensures
            r@ == with_variant(self@),
    {
        match lookup_emoji(self.text.as_str()) {
            Some(q) => q,
            None => self.text.clone(),
        }
    }
}

/// An emoji at `i`: the maximal run of non-ASCII, non-blank characters,
/// which the emoji table must know.  Gives the emoji as held and the end.
pub open spec fn emoji_at(s: Seq<char>, i: int) -> Option<(Seq<char>, int)> {
    match word(s, i, CharClass::EmojiText) {
        Some(e) => if qualified_emoji(s.subrange(i, e)) is Some {
            Some((strip_variation(s.subrange(i, e)), e))
        } else {
            None
        },
        None => None,
    }
}

/// Reads `emoji_at`.
pub fn parse_emoji_at(v: &Vec<char>, i: usize) -> (r: Option<(Emoji, usize)>)
    requires
        i <= v@.len(),
    ensures
        r matches Some((em, e)) ==> emoji_at(v@, i as int) == Some((em@, e as int)) && i < e <= v@.len(),
        r is None ==> emoji_at(v@, i as int) is None,
{
    match word_at(v, i, CharClass::EmojiText) {
        Some(e) => {
            let run = crate::chars::string_of(v, i, e);
            match lookup_emoji(run.as_str()) {
                Some(_) => {
                    let text = strip_variation_chars(v, i, e);
                    Some((Emoji { text }, e))
                },
                None => None,
            }
        },
        None => None,
    }
}

} // verus!
