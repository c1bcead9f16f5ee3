//! Turns a chat-export document (a channel's message history) into a CSV
//! summary of periodic bot stats reports: a trigger command opens a
//! time-bounded window, numbers mined from subsequent bot-reply embeds are
//! summed into it, and each window becomes one CSV row when it closes.

use vstd::prelude::*;

pub mod aggregator;
pub mod extract;
pub mod laws;
pub mod model;
pub mod render;

verus! {

/// Number of nanoseconds in the fixed one-hour window lifetime.
pub const HOUR_NANOS: i64 = 3_600_000_000_000;

/// Saturating addition on `u64`, used for the running sums of a window.
pub fn sat_add(a: u64, b: u64) -> (r: u64)
    ensures
        r == sat_add_spec(a as int, b as int),
{
    if b > u64::MAX - a {
        u64::MAX
    } else {
        a + b
    }
}

/// Mathematical form of saturating `u64` addition.
pub open spec fn sat_add_spec(a: int, b: int) -> int {
    if a + b > u64::MAX {
        u64::MAX as int
    } else {
        a + b
    }
}

} // verus!
