//! The schedule of the periodic discovery of new sticker sets.
use vstd::prelude::*;

verus! {

/// The seconds to wait while discovery is catching up.
pub const SHORT_WAIT_SECS: u64 = 5;

/// The seconds to wait otherwise.
pub const LONG_WAIT_SECS: u64 = 300;

/// After a discovery run from `offset`: the offset of the next run and the
/// seconds to wait before it.  `run` is the run's new offset and the
/// number of sets it listed, or `None` where it failed (the offset stays).
/// The bot goes on soon only where the run listed nothing but moved the
/// offset.
pub fn discover_step(offset: usize, run: Option<(usize, usize)>) -> (r: (usize, u64))
    ensures
        match run {
            Some((new_offset, listed)) => r.0 == new_offset
                && r.1 == (if listed == 0 && new_offset != offset { SHORT_WAIT_SECS } else { LONG_WAIT_SECS }),
            None => r.0 == offset && r.1 == LONG_WAIT_SECS,
        },
{
    match run {
        Some((new_offset, listed)) => {
            if listed == 0 && new_offset != offset {
                (new_offset, SHORT_WAIT_SECS)
            } else {
                (new_offset, LONG_WAIT_SECS)
            }
        },
        None => (offset, LONG_WAIT_SECS),
    }
}

} // verus!
