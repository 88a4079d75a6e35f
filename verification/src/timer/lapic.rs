//! Calibration of the local APIC timer against the PIT.
//!
//! The measurement itself is port and register work done by the caller;
//! this module turns the measured counter into the tick count used for
//! the 10 ms periodic interrupt.

use vstd::prelude::*;

verus! {

/// PIT input frequency in Hz.
pub const PIT_FREQ: u64 = 1_193_182;
/// PIT ticks in about 10 ms.
pub const PIT_TICKS_10MS: u16 = 11931;
/// Vector of the LAPIC timer interrupt.
pub const TIMER_VECTOR: u8 = 32;
/// The divide-by-16 setting of the timer divide register.
pub const DIVIDE_BY_16: u32 = 0x03;
/// Ticks per 10 ms assumed when a measurement looks wrong (a 1 GHz bus
/// divided by 16).
pub const FALLBACK_TICKS_10MS: u32 = 625_000;
/// The timer-vector register value for a periodic, unmasked timer.
pub const PERIODIC_TIMER_LVT: u32 = 0x2_0020;
/// The timer-vector register value for a masked timer.
pub const MASKED_TIMER_LVT: u32 = 0x1_0000;

/// The ticks per 10 ms given the counter left after a 10 ms count from
/// `u32::MAX`; a count of none or of all ticks falls back to 625 000.
pub fn calibrated_ticks(remaining: u32) -> (t: u32)
    ensures
        ({
            let elapsed = (u32::MAX - remaining) as u32;
            t == (if elapsed == 0 || elapsed == u32::MAX { FALLBACK_TICKS_10MS } else { elapsed })
        }),
{
    let elapsed = 0xFFFF_FFFFu32.wrapping_sub(remaining);
    if elapsed == 0 || elapsed == 0xFFFF_FFFF {
        FALLBACK_TICKS_10MS
    } else {
        elapsed
    }
}

/// The calibrated ticks per 10 ms.
#[derive(Debug, Clone, Copy)]
pub struct LapicTimer {
    pub ticks_10ms: u32,
}

impl LapicTimer {
    /// Not yet calibrated.
    pub fn new() -> (t: Self)
        ensures
            t.ticks_10ms == 0,
    {
        LapicTimer { ticks_10ms: 0 }
    }

    /// The calibrated ticks per 10 ms; 0 before calibration.
    pub fn ticks_per_10ms(&self) -> (t: u32)
        ensures
            t == self.ticks_10ms,
    {
        self.ticks_10ms
    }
}

} // verus!
