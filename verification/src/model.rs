//! Small value types shared by the text formats: the user's sticker order,
//! the category of a tag, and the JSON text of an order.
use vstd::prelude::*;
use crate::numbers::{dec, digits_val, lemma_dec_digits};
use crate::chars::{in_class, CharClass};

verus! {

/// How the stickers of a search are ordered for a user.
#[derive(Debug, Clone, Copy, PartialEq, Eq)]
pub enum StickerOrder {
    LatestFirst,
    Random,
}

impl StickerOrder {
    pub open spec fn spec_from_u8(n: u8) -> Option<StickerOrder> {
        if n == 0 {
            Some(StickerOrder::LatestFirst)
        } else if n == 1 {
            Some(StickerOrder::Random)
        } else {
            None
        }
    }

    pub open spec fn spec_to_u8(self) -> u8 {
        match self {
            StickerOrder::LatestFirst => 0,
            StickerOrder::Random => 1,
        }
    }

    /// The order with the given discriminant.
    pub fn from_u8(n: u8) -> (r: Option<StickerOrder>)
        ensures
            r == Self::spec_from_u8(n),
    {
        if n == 0 {
            Some(StickerOrder::LatestFirst)
        } else if n == 1 {
            Some(StickerOrder::Random)
        } else {
            None
        }
    }

    /// The discriminant of the order.
    pub fn to_u8(&self) -> (r: u8)
        ensures
            r == self.spec_to_u8(),
    {
        match self {
            StickerOrder::LatestFirst => 0,
            StickerOrder::Random => 1,
        }
    }
}

impl Default for StickerOrder {
    /// Newest first.
    fn default() -> (r: StickerOrder)
        ensures
            r == StickerOrder::LatestFirst,
    {
        StickerOrder::LatestFirst
    }
}

/// A user's settings.
#[derive(Debug, Clone, Copy, PartialEq, Eq, Default)]
pub struct UserSettings {
    pub order: Option<StickerOrder>,
}

impl UserSettings {
    /// The user's sticker order: newest first where none was chosen.
    pub fn order(&self) -> (r: StickerOrder)
        ensures
            r == (match self.order {
                Some(o) => o,
                None => StickerOrder::LatestFirst,
            }),
    {
        match self.order {
            Some(o) => o,
            None => StickerOrder::LatestFirst,
        }
    }
}

/// The category of a tag, numbered as the tag source numbers them.
#[derive(Debug, Clone, Copy, PartialEq, Eq)]
pub enum Category {
    General,
    Artist,
    Contributor,
    Copyright,
    Character,
    Species,
    Invalid,
    Meta,
    Lore,
}

impl Category {
    pub open spec fn spec_from_u8(n: u8) -> Option<Category> {
        if n == 0 { Some(Category::General) }
        else if n == 1 { Some(Category::Artist) }
        else if n == 2 { Some(Category::Contributor) }
        else if n == 3 { Some(Category::Copyright) }
        else if n == 4 { Some(Category::Character) }
        else if n == 5 { Some(Category::Species) }
        else if n == 6 { Some(Category::Invalid) }
        else if n == 7 { Some(Category::Meta) }
        else if n == 8 { Some(Category::Lore) }
        else { None }
    }

    pub open spec fn spec_to_u8(self) -> u8 {
        match self {
            Category::General => 0,
            Category::Artist => 1,
            Category::Contributor => 2,
            Category::Copyright => 3,
            Category::Character => 4,
            Category::Species => 5,
            Category::Invalid => 6,
            Category::Meta => 7,
            Category::Lore => 8,
        }
    }

    /// The category with the given number.
    pub fn from_u8(n: u8) -> (r: Option<Category>)
        ensures
            r == Self::spec_from_u8(n),
    {
        if n == 0 { Some(Category::General) }
        else if n == 1 { Some(Category::Artist) }
        else if n == 2 { Some(Category::Contributor) }
        else if n == 3 { Some(Category::Copyright) }
        else if n == 4 { Some(Category::Character) }
        else if n == 5 { Some(Category::Species) }
        else if n == 6 { Some(Category::Invalid) }
        else if n == 7 { Some(Category::Meta) }
        else if n == 8 { Some(Category::Lore) }
        else { None }
    }

    /// The number of the category.
    pub fn to_u8(&self) -> (r: u8)
        ensures
            r == self.spec_to_u8(),
    {
        match self {
            Category::General => 0,
            Category::Artist => 1,
            Category::Contributor => 2,
            Category::Copyright => 3,
            Category::Character => 4,
            Category::Species => 5,
            Category::Invalid => 6,
            Category::Meta => 7,
            Category::Lore => 8,
        }
    }
}

/// A byte that JSON counts as whitespace.
pub open spec fn json_ws(c: char) -> bool {
    c == ' ' || c == '\n' || c == '\t' || c == '\r'
}

/// The text without its leading JSON whitespace.
pub open spec fn strip_json_ws_front(s: Seq<char>) -> Seq<char>
    decreases s.len(),
{
    if s.len() > 0 && json_ws(s[0]) { strip_json_ws_front(s.drop_first()) } else { s }
}

/// The text without its trailing JSON whitespace.
pub open spec fn strip_json_ws_back(s: Seq<char>) -> Seq<char>
    decreases s.len(),
{
    if s.len() > 0 && json_ws(s.last()) { strip_json_ws_back(s.drop_last()) } else { s }
}

/// What `serde_json::from_str::<u8>` reads from a text: JSON whitespace
/// around a non-empty run of ASCII digits with no leading zero (but `0`
/// itself), of value at most 255.  A sign, a fraction, an exponent, any
/// other character, or a larger value is refused.
pub open spec fn json_u8_value(text: Seq<char>) -> Option<u8> {
    let core = strip_json_ws_back(strip_json_ws_front(text));
    if core.len() > 0
        && (forall|i: int| 0 <= i < core.len() ==> #[trigger] in_class(core[i], CharClass::Digit))
        && (core.len() == 1 || core[0] != '0')
        && digits_val(core) <= 255
    {
        Some(digits_val(core) as u8)
    } else {
        None
    }
}

/// `serde_json::from_str::<u8>`: the deserializer skips JSON whitespace,
/// reads an integer (one leading `0` only; `.`, `e` or a `-` make it no
/// `u8`), checks the range of `u8`, and refuses anything but whitespace
/// after it; the result is `json_u8_value` of the text.
#[verifier::external_body]
pub(crate) fn json_parse_u8(text: &str) -> (r: Option<u8>)
    ensures
        r == json_u8_value(text@),
{
    serde_json::from_str::<u8>(text).ok()
}

/// The JSON text of a `u8` reads back as it.
pub proof fn lemma_json_u8_dec(n: u8)
    ensures
        json_u8_value(dec(n as nat)) == Some(n),
{
    let d = dec(n as nat);
    lemma_dec_digits(n as nat);
    assert(!json_ws(d[0]));
    assert(strip_json_ws_front(d) == d);
    assert(!json_ws(d.last()));
    assert(strip_json_ws_back(d) == d);
    if n >= 1 {
        crate::numbers::lemma_dec_head(n as nat);
    }
}

/// `serde_json::to_string::<u8>`: serde_json writes an integer as its decimal digits.
#[verifier::external_body]
pub(crate) fn json_u8_text(n: u8) -> (r: String)
    ensures
        r@ == dec(n as nat),
{
    serde_json::to_string(&n).unwrap_or_default()
}

/// The order that a JSON text denotes: serde_json reads the number, and
/// the number is the order's discriminant.
pub open spec fn order_from_text(text: Seq<char>) -> Option<StickerOrder> {
    match json_u8_value(text) {
        Some(n) => StickerOrder::spec_from_u8(n),
        None => None,
    }
}

/// Reads an order from its JSON text (its discriminant as a JSON number).
pub fn parse_order_text(text: &str) -> (r: Option<StickerOrder>)
    ensures
        r == order_from_text(text@),
{
    match json_parse_u8(text) {
        Some(n) => StickerOrder::from_u8(n),
        None => None,
    }
}

/// The JSON text of an order reads back as the order.
pub proof fn lemma_order_text_reads_back(o: StickerOrder)
    ensures
        order_from_text(dec(o.spec_to_u8() as nat)) == Some(o),
{
    lemma_json_u8_dec(o.spec_to_u8());
}

/// The JSON text of an order.
pub fn order_text(order: StickerOrder) -> (r: String)
    ensures
        r@ == dec(order.spec_to_u8() as nat),
{
    json_u8_text(order.to_u8())
}

} // verus!
