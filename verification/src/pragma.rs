//! Settings text for the SQLite connection.
use vstd::prelude::*;
use crate::chars::push_char;
use crate::numbers::{dec, push_dec};

verus! {

/// One kibibyte.
pub const KB: usize = 1024;

/// The `cache_size` pragma value for a cache of `bytes` bytes: a negative
/// value counts kibibytes (whole kibibytes, rounded down).
pub fn format_cache_size(bytes: usize) -> (r: String)
    ensures
        r@ == seq!['-'] + dec((bytes / 1024) as nat),
{
    let mut r = String::new();
    push_char(&mut r, '-');
    push_dec(&mut r, (bytes / KB) as u64);
    assert(Seq::<char>::empty().push('-') =~= seq!['-']);
    r
}

} // verus!
