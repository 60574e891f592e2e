//! Timestamp arithmetic for the boot log.
//!
//! Reading the cycle counter is the caller's business; the conversion to
//! log-friendly units is computed and verified here.

use vstd::prelude::*;

verus! {

/// Cycle-counter ticks since boot, in thousands: the delta between the
/// current and the boot-time counter value, floored at zero, divided by
/// one thousand.
pub fn get_timestamp_k(current: u64, boot: u64) -> (r: u64)
    ensures
        r == (if current >= boot { ((current - boot) / 1000) as int } else { 0int }),
{
    if current >= boot {
        (current - boot) / 1000
    } else {
        0
    }
}

} // verus!
