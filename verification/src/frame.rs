//! Arithmetic for the driving loop: frame timing and playfield sizing.

use vstd::prelude::*;

verus! {

/// How long to sleep between generations, in milliseconds, for a frame rate
/// of `fps` frames per second. A frame rate of zero is rejected.
pub fn frame_interval_millis(fps: u64) -> (interval: Option<u64>)
    ensures
        fps == 0 ==> interval is None,
        0 < fps ==> interval == Some(1000u64 / fps),
{
    if fps == 0 {
        None
    } else {
        Some(1000 / fps)
    }
}

/// The grid dimensions that fit a terminal of the given size once the
/// rendered border is accounted for: two columns for the side borders, two
/// rows for the top and bottom borders plus one row for the trailing
/// newline. Terminals too small for any playfield are rejected.
pub fn playfield_size(term_width: usize, term_height: usize) -> (size: Option<(usize, usize)>)
    ensures
        size is Some <==> (2 <= term_width && 3 <= term_height),
        size matches Some(wh) ==> wh.0 == term_width - 2 && wh.1 == term_height - 3,
{
    if term_width >= 2 && term_height >= 3 {
        Some((term_width - 2, term_height - 3))
    } else {
        None
    }
}

} // verus!
