//! Protocol-wide constants.

use vstd::prelude::*;

verus! {

/// Required precision of time synchronization between peers, in milliseconds.
/// Synchronization succeeds when the clock offset is within this threshold.
pub const TIME_SYNC_PRECISION_MS: u64 = 10;

/// The same precision in nanoseconds.
pub const TIME_SYNC_PRECISION_NS: u64 = TIME_SYNC_PRECISION_MS * 1_000_000;

} // verus!
