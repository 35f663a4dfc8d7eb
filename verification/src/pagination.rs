//! Paging through inline query results.  Telegram hands back the offset text
//! of the previous answer; it reads `<offset>;<seed>`, where the seed fixes
//! the order of randomly ordered results across pages.
use vstd::prelude::*;
use crate::chars::{lemma_span_len_facts, push_char, span, span_len, to_chars, CharClass};
use crate::numbers::{dec, dec_int, lemma_std_parse_dec, push_dec, push_dec_i64, std_parse_int, std_parse_range};

verus! {

/// A page of inline results as plain values.
pub struct QueryPageView {
    pub page_size: usize,
    pub offset: usize,
    pub seed: i32,
}

/// A page of inline results: how many to show, how many to skip, and the
/// seed of the result order.
#[derive(Copy, Clone, Debug)]
pub struct QueryPage {
    page_size: usize,
    current_offset: usize,
    seed: i32,
}

impl View for QueryPage {
    type V = QueryPageView;

    closed spec fn view(&self) -> QueryPageView {
        QueryPageView { page_size: self.page_size, offset: self.current_offset, seed: self.seed }
    }
}

/// Why an offset text was refused.
#[derive(Copy, Clone, Debug, PartialEq, Eq)]
pub enum QueryOffsetError {
    /// The part before the first `;` is not a `usize`.
    InvalidOffset,
    /// The part after the first `;` (up to the next one) is not an `i32`.
    InvalidSeed,
}

/// The first two `;`-separated fields of `s`, where `s` has a `;` at all.
pub open spec fn offset_fields(s: Seq<char>) -> Option<(Seq<char>, Seq<char>)> {
    let k = span_len(s, CharClass::Field);
    if k >= s.len() {
        None
    } else {
        let rest = s.skip(k + 1int);
        Some((s.take(k as int), rest.take(span_len(rest, CharClass::Field) as int)))
    }
}

/// The page that an offset text stands for.  A text without `;` starts a
/// new listing at offset 0 with the given fresh seed.
pub open spec fn page_from_offset(s: Seq<char>, page_size: usize, fresh_seed: i32) -> Result<QueryPageView, QueryOffsetError> {
    match offset_fields(s) {
        None => Ok(QueryPageView { page_size, offset: 0, seed: fresh_seed }),
        Some((o, sd)) => match std_parse_int(o, false, 0, usize::MAX as int) {
            None => Err(QueryOffsetError::InvalidOffset),
            Some(off) => match std_parse_int(sd, true, i32::MIN as int, i32::MAX as int) {
                None => Err(QueryOffsetError::InvalidSeed),
                Some(seed) => Ok(QueryPageView { page_size, offset: off as usize, seed: seed as i32 }),
            },
        },
    }
}

/// A page result by its view.
pub open spec fn page_result_view(r: Result<QueryPage, QueryOffsetError>) -> Result<QueryPageView, QueryOffsetError> {
    match r {
        Ok(p) => Ok(p@),
        Err(e) => Err(e),
    }
}

/// The offset text of the page after `p`, given how many results this page
/// had: empty where there are no more results.
pub open spec fn next_offset_text(p: QueryPageView, current_result_len: usize) -> Seq<char> {
    if current_result_len >= p.page_size {
        dec((p.offset + p.page_size) as nat) + seq![';'] + dec_int(p.seed as int)
    } else {
        Seq::empty()
    }
}

/// A random seed for the order of a new listing (`rand::random::<i32>`).
/// Any `i32` may come back.
#[verifier::external_body]
fn random_seed() -> i32 {
    rand::random::<i32>()
}

impl QueryPage {
    /// The page that `query_offset` stands for, with `fresh_seed` as the seed
    /// of a new listing.
    pub fn from_query_offset_and_seed(query_offset: &str, page_size: usize, fresh_seed: i32) -> (r: Result<QueryPage, QueryOffsetError>)
        ensures
            page_result_view(r) == page_from_offset(query_offset@, page_size, fresh_seed),
    {
        let v = to_chars(query_offset);
        let k = span(&v, 0, CharClass::Field);
        proof {
            assert(v@.skip(0) == v@);
            lemma_span_len_facts(v@, CharClass::Field);
        }
        if k >= v.len() {
            return Ok(QueryPage { page_size, current_offset: 0, seed: fresh_seed });
        }
        let k2 = span(&v, k + 1, CharClass::Field);
        proof {
            let rest = v@.skip(k + 1);
            lemma_span_len_facts(rest, CharClass::Field);
            assert(v@.take(k as int) == v@.subrange(0, k as int));
            assert(rest.take(span_len(rest, CharClass::Field) as int) == v@.subrange(k + 1, k2 as int));
        }
        match std_parse_range(&v, 0, k, false, 0, usize::MAX as u64) {
            None => Err(QueryOffsetError::InvalidOffset),
            Some(off) => match std_parse_range(&v, k + 1, k2, true, i32::MIN as i64, i32::MAX as u64) {
                None => Err(QueryOffsetError::InvalidSeed),
                Some(sd) => Ok(QueryPage { page_size, current_offset: off as usize, seed: sd as i32 }),
            },
        }
    }

    /// The page that `query_offset` stands for; a new listing gets a random seed.
    pub fn from_query_offset(query_offset: &str, page_size: usize) -> (r: Result<QueryPage, QueryOffsetError>)
        ensures
            offset_fields(query_offset@) is Some ==> page_result_view(r) == page_from_offset(query_offset@, page_size, 0),
            offset_fields(query_offset@) is None ==> (r matches Ok(p) && p@.page_size == page_size && p@.offset == 0),
    {
        let v = to_chars(query_offset);
        let k = span(&v, 0, CharClass::Field);
        proof {
            assert(v@.skip(0) == v@);
        }
        let fresh_seed = if k >= v.len() { random_seed() } else { 0 };
        QueryPage::from_query_offset_and_seed(query_offset, page_size, fresh_seed)
    }

    /// The offset text of the next page: `<offset + page size>;<seed>` where
    /// this page was full, else empty (no more results).
    pub fn next_query_offset(&self, current_result_len: usize) -> (r: String)
        requires
            current_result_len >= self@.page_size ==> self@.offset + self@.page_size <= usize::MAX,
        ensures
            r@ == next_offset_text(self@, current_result_len),
    {
        if current_result_len >= self.page_size {
            let mut s = String::new();
            push_dec(&mut s, (self.current_offset + self.page_size) as u64);
            push_char(&mut s, ';');
            push_dec_i64(&mut s, self.seed as i64);
            proof {
                let a = dec((self@.offset + self@.page_size) as nat);
                assert(Seq::<char>::empty() + a == a);
                assert(a.push(';') == a + seq![';']);
            }
            s
        } else {
            String::new()
        }
    }

    /// How many results to skip.
    pub fn skip(&self) -> (r: usize)
        ensures
            r == self@.offset,
    {
        self.current_offset
    }

    /// How many results a page shows.
    pub fn page_size(&self) -> (r: usize)
        ensures
            r == self@.page_size,
    {
        self.page_size
    }

    /// The seed of the result order.
    pub fn seed(&self) -> (r: i32)
        ensures
            r == self@.seed,
    {
        self.seed
    }
}

/// The offset text of the next page reads back as that page: a full page
/// leads to the same page size and seed with the offset advanced by one
/// page; a page that was not full leads to a new listing.
pub proof fn lemma_next_offset_reads_back(p: QueryPageView, current_result_len: usize, fresh_seed: i32)
    requires
        current_result_len >= p.page_size ==> p.offset + p.page_size <= usize::MAX,
    ensures
        current_result_len >= p.page_size ==> page_from_offset(next_offset_text(p, current_result_len), p.page_size, fresh_seed)
            == Ok::<QueryPageView, QueryOffsetError>(QueryPageView { page_size: p.page_size, offset: (p.offset + p.page_size) as usize, seed: p.seed }),
        current_result_len < p.page_size ==> page_from_offset(next_offset_text(p, current_result_len), p.page_size, fresh_seed)
            == Ok::<QueryPageView, QueryOffsetError>(QueryPageView { page_size: p.page_size, offset: 0, seed: fresh_seed }),
{
    let s = next_offset_text(p, current_result_len);
    if current_result_len >= p.page_size {
        let n = (p.offset + p.page_size) as nat;
        let a = dec(n);
        let b = dec_int(p.seed as int);
        crate::numbers::lemma_dec_digits(n);
        assert forall|i: int| 0 <= i < a.len() implies crate::chars::in_class(#[trigger] s[i], CharClass::Field) by {
            assert(s[i] == a[i]);
            assert(crate::chars::in_class(a[i], CharClass::Digit));
        }
        assert(s[a.len() as int] == ';');
        crate::chars::lemma_span_len(s, CharClass::Field, a.len() as int);
        let rest = s.skip(a.len() + 1int);
        assert(rest =~= b);
        let m: nat = if p.seed < 0 { (-p.seed) as nat } else { p.seed as nat };
        crate::numbers::lemma_dec_digits(m);
        assert forall|i: int| 0 <= i < b.len() implies crate::chars::in_class(#[trigger] b[i], CharClass::Field) by {
            if p.seed < 0 {
                if i > 0 {
                    assert(b[i] == dec(m)[i - 1]);
                    assert(crate::chars::in_class(dec(m)[i - 1], CharClass::Digit));
                }
            } else {
                assert(crate::chars::in_class(dec(m)[i], CharClass::Digit));
            }
        }
        crate::chars::lemma_span_len(b, CharClass::Field, b.len() as int);
        assert(s.take(a.len() as int) =~= a);
        assert(b.take(b.len() as int) =~= b);
        lemma_std_parse_dec(n as int, false, 0, usize::MAX as int);
        lemma_std_parse_dec(p.seed as int, true, i32::MIN as int, i32::MAX as int);
        assert(dec_int(n as int) == a);
    } else {
        assert(span_len(s, CharClass::Field) == 0);
    }
}

} // verus!
