//! The high-precision event timer, in software simulation.

use crate::arch::PhysAddr;
use vstd::prelude::*;

verus! {

/// Physical base of the HPET registers.
pub const HPET_BASE: u64 = 0xFED0_0000;

/// The HPET.
#[derive(Debug, Clone, Copy)]
pub struct HpetTimer {
    pub base: PhysAddr,
    pub available: bool,
}

/// What can go wrong bringing the HPET up.
#[derive(Debug, Clone, Copy, PartialEq, Eq, Structural)]
pub enum HpetError {
    NotFound,
    NotAvailable,
    MappingFailed,
    InitFailed,
}

/// The description of each HPET error.
pub open spec fn hpet_error_text(e: HpetError) -> Seq<char> {
    match e {
        HpetError::NotFound => "HPET not found"@,
        HpetError::NotAvailable => "HPET not available"@,
        HpetError::MappingFailed => "Failed to map HPET"@,
        HpetError::InitFailed => "HPET initialization failed"@,
    }
}

impl HpetError {
    /// The human-readable description of the error.
    pub fn message(&self) -> (m: &'static str)
        ensures
            m@ == hpet_error_text(*self),
    {
        match self {
            HpetError::NotFound => "HPET not found",
            HpetError::NotAvailable => "HPET not available",
            HpetError::MappingFailed => "Failed to map HPET",
            HpetError::InitFailed => "HPET initialization failed",
        }
    }
}

impl HpetTimer {
    /// The HPET at its standard base, not available.
    pub fn new() -> (t: Self)
        ensures
            t.base.0 == HPET_BASE,
            !t.available,
    {
        HpetTimer { base: PhysAddr(HPET_BASE), available: false }
    }

    /// Bring the timer up; the simulation leaves it unavailable.
    pub fn init(&mut self) -> (r: Result<(), HpetError>)
        ensures
            r is Ok,
            final(self).base == old(self).base,
            !final(self).available,
    {
        self.available = false;
        Ok(())
    }

    /// The timer can be used.
    pub fn is_available(&self) -> (b: bool)
        ensures
            b == self.available,
    {
        self.available
    }

    /// The counter period in femtoseconds.
    pub fn counter_period(&self) -> (p: u64)
        ensures
            p == 100_000_000,
    {
        100_000_000
    }

    /// The counter value; the simulation's counter stays at 0.
    pub fn read_counter(&self) -> (c: u64)
        ensures
            c == 0,
    {
        0
    }
}

} // verus!
