//! The spinner shown beside running tasks.

use vstd::prelude::*;

verus! {

/// Milliseconds that each spinner frame is shown.
pub const DOTS_INTERVAL_MS: u128 = 80;

/// The spinner frames, in order.
pub open spec fn dots_frames() -> Seq<Seq<char>> {
    seq!["⠋"@, "⠙"@, "⠹"@, "⠸"@, "⠼"@, "⠴"@, "⠦"@, "⠧"@, "⠇"@, "⠏"@]
}

/// The frame shown `elapsed_ms` milliseconds after the epoch.
pub open spec fn dots_frame_at(elapsed_ms: u128) -> Seq<char> {
    dots_frames()[((elapsed_ms / DOTS_INTERVAL_MS) as usize % 10) as int]
}

/// The spinner frame shown `elapsed_ms` milliseconds after the epoch:
/// the frames of the "dots" spinner, each for 80 ms, in turn.
pub fn dots_frame(elapsed_ms: u128) -> (r: &'static str)
    ensures
        r@ == dots_frame_at(elapsed_ms),
        dots_frames().contains(r@),
{
    let index = (elapsed_ms / DOTS_INTERVAL_MS) as usize % 10;
    assert(dots_frames()[index as int] == dots_frame_at(elapsed_ms));
    match index {
        0 => "⠋",
        1 => "⠙",
        2 => "⠹",
        3 => "⠸",
        4 => "⠼",
        5 => "⠴",
        6 => "⠦",
        7 => "⠧",
        8 => "⠇",
        _ => "⠏",
    }
}

/// The spinner comes back to the same frame every ten frames.
pub proof fn dots_frame_repeats(elapsed_ms: u128)
    requires
        elapsed_ms / DOTS_INTERVAL_MS + 10 <= usize::MAX,
        elapsed_ms + 10 * DOTS_INTERVAL_MS <= u128::MAX,
    ensures
        dots_frame_at((elapsed_ms + 10 * DOTS_INTERVAL_MS) as u128) == dots_frame_at(elapsed_ms),
{
    let later = (elapsed_ms + 10 * DOTS_INTERVAL_MS) as u128;
    assert(later / DOTS_INTERVAL_MS == elapsed_ms / DOTS_INTERVAL_MS + 10);
    let n = elapsed_ms / DOTS_INTERVAL_MS;
    assert((n + 10) as usize == n as usize + 10);
    assert(((n as usize + 10) as usize) % 10 == (n as usize) % 10);
}

} // verus!
