//! Pacing of the clock signal.

use vstd::prelude::*;

verus! {

/// Microseconds in one second.
pub const MICROS_PER_SECOND: u32 = 1000000;

/// How long to sleep, in microseconds, after a reading taken `subsec_micros`
/// into its second, to wake just past the next whole second. A reading
/// inside a leap second (`subsec_micros` of a million or more) counts from
/// the start of that second.
pub fn tick_delay_micros(subsec_micros: u32) -> (r: u64)
    ensures
        r == 1000001 - (subsec_micros % 1000000),
        1 < r <= 1000001,
{
    (MICROS_PER_SECOND as u64 + 1) - (subsec_micros % MICROS_PER_SECOND) as u64
}

} // verus!
