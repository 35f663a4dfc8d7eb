//! Errors that are the user's doing, and the byte length of text.
use vstd::prelude::*;
use crate::chars::{join, push_join, push_str, push_range, to_chars};
use crate::numbers::{dec, push_dec};

verus! {

/// Length in bytes of the UTF-8 encoding of one character.
pub open spec fn char_byte_len(c: char) -> nat {
    if (c as u32) < 0x80 { 1 } else if (c as u32) < 0x800 { 2 } else if (c as u32) < 0x10000 { 3 } else { 4 }
}

/// Length in bytes of the UTF-8 encoding of a text (`str::len`).
pub open spec fn byte_len(s: Seq<char>) -> nat
    decreases s.len(),
{
    if s.len() == 0 { 0 } else { byte_len(s.drop_last()) + char_byte_len(s.last()) }
}

/// The byte length of `v[0..k]`.
pub fn byte_len_of(v: &Vec<char>, k: usize) -> (n: usize)
    requires
        k <= v@.len(),
        byte_len(v@.take(k as int)) <= usize::MAX,
    ensures
        n == byte_len(v@.take(k as int)),
{
    let mut n: usize = 0;
    let mut i: usize = 0;
    while i < k
        invariant
            0 <= i <= k <= v@.len(),
            n == byte_len(v@.take(i as int)),
            byte_len(v@.take(k as int)) <= usize::MAX,
        decreases k - i,
    {
        let c = v[i];
        let w: usize = if (c as u32) < 0x80 { 1 } else if (c as u32) < 0x800 { 2 } else if (c as u32) < 0x10000 { 3 } else { 4 };
        proof {
            assert(v@.take(i + 1).drop_last() == v@.take(i as int));
            assert(v@.take(i + 1).last() == c);
            lemma_byte_len_prefix(v@.take(k as int), i + 1);
            assert(v@.take(k as int).take(i + 1) == v@.take(i + 1));
        }
        n = n + w;
        i = i + 1;
    }
    n
}

pub proof fn lemma_byte_len_prefix(s: Seq<char>, j: int)
    requires
        0 <= j <= s.len(),
    ensures
        byte_len(s.take(j)) <= byte_len(s),
    decreases s.len() - j,
{
    if j < s.len() {
        lemma_byte_len_prefix(s.drop_last(), j);
        assert(s.drop_last().take(j) == s.take(j));
        assert(s.take(s.len() as int) == s);
    } else {
        assert(s.take(j) == s);
    }
}

pub proof fn lemma_byte_len_concat(a: Seq<char>, b: Seq<char>)
    ensures
        byte_len(a + b) == byte_len(a) + byte_len(b),
    decreases b.len(),
{
    if b.len() > 0 {
        lemma_byte_len_concat(a, b.drop_last());
        assert((a + b).drop_last() == a + b.drop_last());
    } else {
        assert(a + b == a);
    }
}

/// `byte_len` is the length of the UTF-8 encoding.
pub proof fn lemma_byte_len_utf8(s: Seq<char>)
    ensures
        byte_len(s) == vstd::utf8::encode_utf8(s).len(),
    decreases s.len(),
{
    if s.len() > 0 {
        lemma_byte_len_utf8(s.drop_first());
        lemma_byte_len_concat(seq![s[0]], s.drop_first());
        assert(seq![s[0]] + s.drop_first() == s);
        assert(seq![s[0]].drop_last() =~= Seq::<char>::empty());
        let c = s[0];
        let u = c as u32;
        assert(vstd::utf8::is_scalar(u)) by {
            vstd::utf8::char_is_scalar(c);
        }
        if u <= 0x7f {
            assert(vstd::utf8::encode_scalar(u).len() == 1);
        } else if u <= 0x7ff {
            assert(vstd::utf8::encode_scalar(u).len() == 2);
        } else if u <= 0xffff {
            assert(vstd::utf8::encode_scalar(u).len() == 3);
        } else {
            assert(vstd::utf8::encode_scalar(u).len() == 4);
        }
        assert(vstd::utf8::encode_scalar(u).len() == char_byte_len(c));
        let one = seq![c];
        assert(one.last() == c);
        assert(one.drop_last() =~= Seq::<char>::empty());
        assert(byte_len(Seq::<char>::empty()) == 0);
        assert(byte_len(one) == byte_len(one.drop_last()) + char_byte_len(one.last()));
        assert(byte_len(seq![c]) == char_byte_len(c));
    }
}

/// An error that the user caused.
#[derive(Debug, Clone, PartialEq, Eq)]
pub enum UserError {
    NoPermissionForAction(String),
    InvalidMode,
    UnsupportedStickerType,
    StickerNotPartOfSet,
    UnhandledMessageType,
    /// The input could not be read at the given byte position; the rest of the input.
    ParseError(usize, String),
    TagsNotFound(Vec<String>),
    CommandError(CommandParseError),
    InvalidStartParameter,
}

/// A command that could not be read.
#[derive(Debug, Clone, PartialEq, Eq)]
pub enum CommandParseError {
    /// No command has this name.
    UnknownCommand(String),
    /// The command's arguments could not be read.
    InvalidArguments,
}

/// At most the first ten characters of `s`.
pub open spec fn first_ten(s: Seq<char>) -> Seq<char> {
    if s.len() <= 10 { s } else { s.take(10) }
}

/// The message that the user is shown for an error.
pub open spec fn end_user_message(e: UserError) -> Seq<char> {
    match e {
        UserError::NoPermissionForAction(action) => "Oh no, I can't let you do this ("@ + action@ + ") yet."@,
        UserError::InvalidMode => "Can't do that here!"@,
        UserError::UnsupportedStickerType => "Those don't look like regular stickers."@,
        UserError::StickerNotPartOfSet => "Stickers must be part of a set!"@,
        UserError::UnhandledMessageType => "I have no idea what to do with this. Send me text messages containing commands, stickers, or t.me/addsticker links!"@,
        UserError::CommandError(CommandParseError::UnknownCommand(input)) => "What the heck is a \""@ + input@ + "\"?"@,
        UserError::CommandError(CommandParseError::InvalidArguments) => "Invalid arguments!"@,
        UserError::InvalidStartParameter => "Invalid arguments!"@,
        UserError::ParseError(position, rest) => "Invalid input at position "@ + dec(position as nat) + ": "@ + first_ten(rest@),
        UserError::TagsNotFound(tags) => "Could not find tags: "@ + join(tags.deep_view(), ", "@),
    }
}

impl UserError {
    /// The message that the user is shown.
    pub fn end_user_error(&self) -> (r: String)
        ensures
            r@ == end_user_message(*self),
    {
        let mut s = String::new();
        match self {
            UserError::NoPermissionForAction(action) => {
                push_str(&mut s, "Oh no, I can't let you do this (");
                push_str(&mut s, action.as_str());
                push_str(&mut s, ") yet.");
            },
            UserError::InvalidMode => push_str(&mut s, "Can't do that here!"),
            UserError::UnsupportedStickerType => push_str(&mut s, "Those don't look like regular stickers."),
            UserError::StickerNotPartOfSet => push_str(&mut s, "Stickers must be part of a set!"),
            UserError::UnhandledMessageType => push_str(&mut s, "I have no idea what to do with this. Send me text messages containing commands, stickers, or t.me/addsticker links!"),
            UserError::CommandError(CommandParseError::UnknownCommand(input)) => {
                push_str(&mut s, "What the heck is a \"");
                push_str(&mut s, input.as_str());
                push_str(&mut s, "\"?");
            },
            UserError::CommandError(CommandParseError::InvalidArguments) => push_str(&mut s, "Invalid arguments!"),
            UserError::InvalidStartParameter => push_str(&mut s, "Invalid arguments!"),
            UserError::ParseError(position, rest) => {
                push_str(&mut s, "Invalid input at position ");
                push_dec(&mut s, *position as u64);
                push_str(&mut s, ": ");
                let v = to_chars(rest.as_str());
                let n = if v.len() <= 10 { v.len() } else { 10 };
                push_range(&mut s, &v, 0, n);
                proof {
                    if v@.len() <= 10 {
                        assert(v@.subrange(0, n as int) =~= v@);
                    } else {
                        assert(v@.subrange(0, n as int) =~= v@.take(10));
                    }
                }
            },
            UserError::TagsNotFound(tags) => {
                push_str(&mut s, "Could not find tags: ");
                push_join(&mut s, tags, ", ");
            },
        }
        proof {
            assert(Seq::<char>::empty() + end_user_message(*self) =~= end_user_message(*self));
        }
        s
    }
}

} // verus!
