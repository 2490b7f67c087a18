//! Pacing of the frames: how long to wait so that a generation takes the
//! configured time, and the rate that was achieved.

use vstd::prelude::*;

verus! {

/// Nanoseconds in a millisecond.
pub const NANOS_PER_MILLI: u128 = 1_000_000;

/// Nanoseconds in a second.
pub const NANOS_PER_SECOND: u128 = 1_000_000_000;

/// The time that is left of a frame of `frametime` milliseconds once
/// `elapsed` nanoseconds of it have passed, in nanoseconds: nothing where the
/// frame is over already.
pub open spec fn spec_remaining_delay(frametime: int, elapsed: int) -> int {
    if frametime * NANOS_PER_MILLI > elapsed {
        frametime * NANOS_PER_MILLI - elapsed
    } else {
        0
    }
}

/// The number of frames per second at `elapsed` nanoseconds a frame, rounded
/// down; `None` for a frame that took no measurable time.
pub open spec fn spec_frame_rate(elapsed: int) -> Option<int> {
    if elapsed == 0 {
        None
    } else {
        Some(NANOS_PER_SECOND as int / elapsed)
    }
}

/// With a frame time of zero there is never anything to wait for. Otherwise
/// the time that has passed and the wait together make up the frame time, or
/// the time that has passed alone where that is more.
pub proof fn lemma_pacing(frametime: int, elapsed: int)
    requires
        0 <= frametime,
        0 <= elapsed,
    ensures
        frametime == 0 ==> spec_remaining_delay(frametime, elapsed) == 0,
        spec_remaining_delay(frametime, elapsed) >= 0,
        elapsed + spec_remaining_delay(frametime, elapsed) >= frametime * NANOS_PER_MILLI,
        elapsed >= frametime * NANOS_PER_MILLI ==> spec_remaining_delay(frametime, elapsed) == 0,
{
}

/// How long to wait, in nanoseconds, before the next frame starts, where a
/// frame is to take `frametime` milliseconds and `elapsed` nanoseconds of it
/// have passed.
pub fn remaining_delay(frametime: u64, elapsed: u128) -> (delay: u128)
    ensures
        delay == spec_remaining_delay(frametime as int, elapsed as int),
{
    let target: u128 = frametime as u128 * NANOS_PER_MILLI;
    if target > elapsed {
        target - elapsed
    } else {
        0
    }
}

/// The frame rate to report for a frame that took `elapsed` nanoseconds, in
/// frames per second; `None` where the frame took no measurable time.
pub fn frame_rate(elapsed: u128) -> (rate: Option<u128>)
    ensures
        spec_frame_rate(elapsed as int) == match rate {
            Some(r) => Some(r as int),
            None => None,
        },
{
    if elapsed == 0 {
        None
    } else {
        Some(NANOS_PER_SECOND / elapsed)
    }
}

} // verus!
