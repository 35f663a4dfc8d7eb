//! Text handling around bot commands: the `/start` parameter, sticker ids
//! inside command names, and the `/command_argument` spelling.
use vstd::prelude::*;
use crate::chars::{push_char, push_str, span_len, string_of, to_chars, trim, trim_bounds, CharClass};
use crate::errors::UserError;

verus! {

/// Equality of two string slices.
pub fn text_eq(a: &str, b: &str) -> (r: bool)
    ensures
        r == (a@ == b@),
{
    a.to_owned() == b.to_owned()
}

/// The parameter of a `/start` deep link.
#[derive(Debug, Clone, Copy, PartialEq, Eq)]
pub enum StartParameter {
    Blacklist,
    Greeting,
    Regular,
    Help,
}

/// The text of a start parameter.
pub open spec fn start_parameter_text(p: StartParameter) -> Seq<char> {
    match p {
        StartParameter::Regular => ""@,
        StartParameter::Blacklist => "blacklist"@,
        StartParameter::Help => "help"@,
        StartParameter::Greeting => "beep"@,
    }
}

/// The start parameter that a text names, if any.
pub open spec fn start_parameter_of(t: Seq<char>) -> Option<StartParameter> {
    if t == ""@ {
        Some(StartParameter::Regular)
    } else if t == "blacklist"@ {
        Some(StartParameter::Blacklist)
    } else if t == "help"@ {
        Some(StartParameter::Help)
    } else if t == "beep"@ {
        Some(StartParameter::Greeting)
    } else {
        None
    }
}

impl StartParameter {
    /// Reads a start parameter; any other text is an invalid parameter.
    pub fn parse(s: &str) -> (r: Result<StartParameter, UserError>)
        ensures
            r == (match start_parameter_of(s@) {
                Some(p) => Ok(p),
                None => Err(UserError::InvalidStartParameter),
            }),
    {
        if text_eq(s, "") {
            Ok(StartParameter::Regular)
        } else if text_eq(s, "blacklist") {
            Ok(StartParameter::Blacklist)
        } else if text_eq(s, "help") {
            Ok(StartParameter::Help)
        } else if text_eq(s, "beep") {
            Ok(StartParameter::Greeting)
        } else {
            Err(UserError::InvalidStartParameter)
        }
    }

    /// The text of the parameter.
    pub fn to_string(&self) -> (r: String)
        ensures
            r@ == start_parameter_text(*self),
    {
        match self {
            StartParameter::Regular => "".to_owned(),
            StartParameter::Blacklist => "blacklist".to_owned(),
            StartParameter::Help => "help".to_owned(),
            StartParameter::Greeting => "beep".to_owned(),
        }
    }
}

impl core::str::FromStr for StartParameter {
    type Err = UserError;

    fn from_str(s: &str) -> (r: Result<StartParameter, UserError>)
        ensures
            r == (match start_parameter_of(s@) {
                Some(p) => Ok(p),
                None => Err(UserError::InvalidStartParameter),
            }),
    {
        StartParameter::parse(s)
    }
}

/// A start parameter reads back from its text.
pub proof fn lemma_start_parameter_roundtrip(p: StartParameter)
    ensures
        start_parameter_of(start_parameter_text(p)) == Some(p),
{
    reveal_strlit("");
    reveal_strlit("blacklist");
    reveal_strlit("help");
    reveal_strlit("beep");
    assert(""@.len() == 0);
    assert("blacklist"@.len() == 9);
    assert("help"@.len() == 4);
    assert("beep"@.len() == 4);
    match p {
        StartParameter::Regular => {},
        StartParameter::Blacklist => {
            assert("blacklist"@ != ""@);
        },
        StartParameter::Help => {
            assert("help"@ != ""@);
            assert("help"@ != "blacklist"@);
        },
        StartParameter::Greeting => {
            assert("beep"@ != ""@);
            assert("beep"@ != "blacklist"@);
            assert("beep"@[0] != "help"@[0]);
            assert("beep"@ != "help"@);
        },
    }
}

/// What stands for `-` in a sticker id inside a command name.
pub open spec fn uwu_marker() -> Seq<char> {
    seq!['_', 'u', 'w', 'u', '_']
}

/// A sticker id with each `-` written as `_uwu_`.
pub open spec fn escaped_id(s: Seq<char>) -> Seq<char>
    decreases s.len(),
{
    if s.len() == 0 {
        s
    } else if s[0] == '-' {
        uwu_marker() + escaped_id(s.drop_first())
    } else {
        seq![s[0]] + escaped_id(s.drop_first())
    }
}

/// `s` with each `_uwu_`, taken left to right without overlap, written as `-`.
pub open spec fn unescaped_id(s: Seq<char>) -> Seq<char>
    decreases s.len(),
{
    if s.len() == 0 {
        s
    } else if s.len() >= 5 && s.take(5) == uwu_marker() {
        seq!['-'] + unescaped_id(s.skip(5))
    } else {
        seq![s[0]] + unescaped_id(s.drop_first())
    }
}

/// `s` holds `uwu` somewhere.
pub open spec fn holds_uwu(s: Seq<char>) -> bool {
    exists|i: int| 0 <= i && i + 3 <= s.len() && #[trigger] s[i] == 'u' && s[i + 1] == 'w' && s[i + 2] == 'u'
}

/// Writes a sticker id so that it can stand in a command name, where only
/// `a-zA-Z0-9_` is allowed: each `-` becomes `_uwu_`.
pub fn escape_sticker_unique_id_for_command(sticker_unique_id: &str) -> (r: String)
    ensures
        r@ == escaped_id(sticker_unique_id@),
{
    let v = to_chars(sticker_unique_id);
    let mut out = String::new();
    let mut i: usize = 0;
    assert(v@.skip(0) =~= v@);
    assert(out@ + escaped_id(v@) =~= escaped_id(v@));
    while i < v.len()
        invariant
            0 <= i <= v@.len(),
            v@ == sticker_unique_id@,
            out@ + escaped_id(v@.skip(i as int)) == escaped_id(v@),
        decreases v@.len() - i,
    {
        let ghost before = out@;
        let ghost t = v@.skip(i as int);
        assert(t.drop_first() =~= v@.skip(i + 1));
        if v[i] == '-' {
            push_str(&mut out, "_uwu_");
            proof {
                reveal_strlit("_uwu_");
                assert("_uwu_"@ =~= uwu_marker());
                assert(before + uwu_marker() + escaped_id(t.drop_first()) == before + (uwu_marker() + escaped_id(t.drop_first())));
            }
        } else {
            push_char(&mut out, v[i]);
            proof {
                assert(before.push(v@[i as int]) + escaped_id(t.drop_first()) == before + (seq![t[0]] + escaped_id(t.drop_first())));
            }
        }
        i = i + 1;
    }
    assert(v@.skip(v@.len() as int) =~= Seq::<char>::empty());
    assert(out@ + Seq::<char>::empty() == out@);
    out
}

/// Reads a sticker id back from a command name: each `_uwu_` becomes `-`.
pub fn unescape_sticker_unique_id_from_command(sticker_unique_id: &str) -> (r: String)
    ensures
        r@ == unescaped_id(sticker_unique_id@),
{
    let v = to_chars(sticker_unique_id);
    let mut out = String::new();
    let mut i: usize = 0;
    assert(v@.skip(0) =~= v@);
    assert(out@ + unescaped_id(v@) =~= unescaped_id(v@));
    while i < v.len()
        invariant
            0 <= i <= v@.len(),
            v@ == sticker_unique_id@,
            out@ + unescaped_id(v@.skip(i as int)) == unescaped_id(v@),
        decreases v@.len() - i,
    {
        let ghost before = out@;
        let ghost t = v@.skip(i as int);
        let is_marker = v.len() - i >= 5 && v[i] == '_' && v[i + 1] == 'u' && v[i + 2] == 'w'
            && v[i + 3] == 'u' && v[i + 4] == '_';
        proof {
            if t.len() >= 5 {
                if is_marker {
                    assert(t.take(5) =~= uwu_marker());
                } else {
                    if t.take(5) == uwu_marker() {
                        assert(t.take(5)[0] == t[0]);
                        assert(t.take(5)[1] == t[1]);
                        assert(t.take(5)[2] == t[2]);
                        assert(t.take(5)[3] == t[3]);
                        assert(t.take(5)[4] == t[4]);
                    }
                }
            }
        }
        if is_marker {
            push_char(&mut out, '-');
            proof {
                assert(t.skip(5) =~= v@.skip(i + 5));
                assert(before.push('-') + unescaped_id(t.skip(5)) == before + (seq!['-'] + unescaped_id(t.skip(5))));
            }
            i = i + 5;
        } else {
            push_char(&mut out, v[i]);
            proof {
                assert(t.drop_first() =~= v@.skip(i + 1));
                assert(before.push(v@[i as int]) + unescaped_id(t.drop_first()) == before + (seq![t[0]] + unescaped_id(t.drop_first())));
            }
            i = i + 1;
        }
    }
    assert(v@.skip(v@.len() as int) =~= Seq::<char>::empty());
    assert(out@ + Seq::<char>::empty() == out@);
    out
}

proof fn lemma_escaped_head(t: Seq<char>)
    requires
        t.len() > 0,
    ensures
        escaped_id(t).len() > 0,
        escaped_id(t)[0] == (if t[0] == '-' { '_' } else { t[0] }),
{
}

/// Reading back an escaped sticker id gives the id, where the id does not
/// hold `uwu` (for `_uwu-` it does not: the first `_uwu` and the `_` that
/// stands for `-` are read as one `-`).
pub proof fn lemma_unescape_escape(s: Seq<char>)
    requires
        !holds_uwu(s),
    ensures
        unescaped_id(escaped_id(s)) == s,
    decreases s.len(),
{
    if s.len() > 0 {
        let t = s.drop_first();
        assert(!holds_uwu(t)) by {
            if holds_uwu(t) {
                let i = choose|i: int| 0 <= i && i + 3 <= t.len() && #[trigger] t[i] == 'u' && t[i + 1] == 'w' && t[i + 2] == 'u';
                assert(s[i + 1] == 'u' && s[i + 2] == 'w' && s[i + 3] == 'u');
            }
        }
        lemma_unescape_escape(t);
        let e = escaped_id(s);
        let et = escaped_id(t);
        if s[0] == '-' {
            assert(e.take(5) =~= uwu_marker());
            assert(e.skip(5) =~= et);
            assert(seq!['-'] + t =~= s);
        } else {
            assert(e[0] == s[0]);
            if e.len() >= 5 && e.take(5) == uwu_marker() {
                assert(e.take(5)[0] == '_');
                assert(s[0] == '_');
                assert(e[1] == 'u' && e[2] == 'w' && e[3] == 'u' && e[4] == '_') by {
                    assert(e.take(5)[1] == e[1]);
                    assert(e.take(5)[2] == e[2]);
                    assert(e.take(5)[3] == e[3]);
                    assert(e.take(5)[4] == e[4]);
                }
                assert(et[0] == 'u');
                lemma_escaped_head(t);
                assert(t[0] == 'u');
                let t2 = t.drop_first();
                assert(et =~= seq![t[0]] + escaped_id(t2));
                assert(t2.len() > 0) by {
                    if t2.len() == 0 {
                        assert(et.len() == 1);
                    }
                }
                lemma_escaped_head(t2);
                assert(escaped_id(t2)[0] == et[1]);
                assert(t2[0] == 'w');
                let t3 = t2.drop_first();
                assert(escaped_id(t2) =~= seq![t2[0]] + escaped_id(t3));
                assert(t3.len() > 0) by {
                    if t3.len() == 0 {
                        assert(escaped_id(t2).len() == 1);
                    }
                }
                lemma_escaped_head(t3);
                assert(escaped_id(t3)[0] == et[2]);
                assert(t3[0] == 'u');
                assert(s[1] == 'u' && s[2] == 'w' && s[3] == 'u');
                assert(holds_uwu(s));
            }
            assert(e.drop_first() =~= et);
            assert(seq![s[0]] + t =~= s);
        }
    }
}

/// The text after `Regex::new("^/([A-Za-z]+)_").replace(text, "/$1 ")`:
/// a `/`, one or more ASCII letters and then `_` at the start has that `_`
/// replaced by a space.
pub open spec fn command_separator_fixed(t: Seq<char>) -> Seq<char> {
    let k = span_len(t.drop_first(), CharClass::Letter) as int;
    if t.len() >= 2 && t[0] == '/' && k >= 1 && 1 + k < t.len() && t[1 + k] == '_' {
        t.update(1 + k, ' ')
    } else {
        t
    }
}

/// `regex::Regex::new(pattern)` (which compiles for the one pattern that
/// `requires` admits) and `Regex::replace(text, replacement)`: the first
/// match of `^/([A-Za-z]+)_` is replaced by `/` and the letters that group
/// 1 matched and a space.
#[verifier::external_body]
fn regex_replace_first(pattern: &str, text: &str, replacement: &str) -> (r: String)
    requires
        pattern@ == "^/([A-Za-z]+)_"@,
        replacement@ == "/$1 "@,
    ensures
        r@ == command_separator_fixed(text@),
{
    regex::Regex::new(pattern).expect("pattern compiles").replace(text, replacement).to_string()
}

/// Lets `/command_argument` read as `/command argument`, then trims
/// surrounding whitespace.
pub fn fix_underline_command_separator_and_normalize(text: &str) -> (r: String)
    ensures
        r@ == trim(command_separator_fixed(text@)),
{
    let replaced = regex_replace_first("^/([A-Za-z]+)_", text, "/$1 ");
    let v = to_chars(replaced.as_str());
    let (a, b) = trim_bounds(&v);
    string_of(&v, a, b)
}

} // verus!
