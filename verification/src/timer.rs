//! Monotonic time capability the stack consumes.

use vstd::prelude::*;

verus! {

/// Source of monotonic timestamps from an arbitrary epoch. The stack
/// asks nothing of the values; its guarantees hold for every clock.
pub trait Timer {
    /// Milliseconds since the epoch.
    fn ticks_ms(&self) -> u64;

    /// Microseconds since the epoch.
    fn ticks_us(&self) -> u64;
}

} // verus!
