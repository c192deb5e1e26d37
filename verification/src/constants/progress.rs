//! Progress display configuration.

use std::time::Duration;

use vstd::prelude::*;

verus! {

/// Milliseconds between progress bar updates.
pub const TICK_INTERVAL_MS: u64 = 100;

/// The duration that `Duration::from_millis` makes of a number of
/// milliseconds.
pub uninterp spec fn millis_duration(ms: u64) -> Duration;

/// Calls `Duration::from_millis`.
#[verifier::external_body]
fn duration_from_millis(ms: u64) -> (r: Duration)
    ensures
        r == millis_duration(ms),
{
    Duration::from_millis(ms)
}

/// Duration between progress bar updates.
pub fn tick_interval() -> (r: Duration)
    ensures
        r == millis_duration(TICK_INTERVAL_MS),
{
    duration_from_millis(TICK_INTERVAL_MS)
}

/// Spinner frames for the ferris wheel animation.
pub const SPINNER_FRAMES: [&'static str; 8] = [
    "🎡 ",
    "🎡⊙",
    "🎡◐",
    "🎡◓",
    "🎡◑",
    "🎡◒",
    "🎡○",
    "🎡●",
];

} // verus!
