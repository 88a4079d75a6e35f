//! Idle accounting and the idle loop's decisions.
//!
//! Times are nanoseconds since boot, read by the caller from the clock.

use vstd::prelude::*;

verus! {

/// Idle time after which the power-managed loop sleeps deeply, in
/// nanoseconds (100 ms).
pub const DEEP_SLEEP_THRESHOLD_NS: u64 = 100_000_000;

/// Per-processor idle accounting.
#[derive(Debug, Clone, Copy)]
pub struct IdleTask {
    cpu: u32,
    idle_count: u64,
    idle_time: u64,
    last_idle_start: Option<u64>,
}

/// What the idle accounting reports.
#[derive(Debug, Clone, Copy, PartialEq, Eq, Structural)]
pub struct IdleStats {
    pub cpu: u32,
    pub idle_count: u64,
    pub total_idle_time: u64,
    pub currently_idle: bool,
}

impl IdleTask {
    /// The processor.
    pub closed spec fn cpu_id(&self) -> u32 {
        self.cpu
    }

    /// Times idle was entered.
    pub closed spec fn entries(&self) -> u64 {
        self.idle_count
    }

    /// Nanoseconds spent idle, over completed idle periods.
    pub closed spec fn total(&self) -> u64 {
        self.idle_time
    }

    /// When the current idle period began, if one is open.
    pub closed spec fn open_since(&self) -> Option<u64> {
        self.last_idle_start
    }

    /// Accounting for `cpu`, with nothing recorded.
    pub fn new(cpu: u32) -> (t: Self)
        ensures
            t.cpu_id() == cpu,
            t.entries() == 0,
            t.total() == 0,
            t.open_since() is None,
    {
        IdleTask { cpu, idle_count: 0, idle_time: 0, last_idle_start: None }
    }

    /// Record entering idle at `now`.
    pub fn enter_idle(&mut self, now: u64)
        requires
            old(self).entries() < u64::MAX,
        ensures
            final(self).cpu_id() == old(self).cpu_id(),
            final(self).entries() == old(self).entries() + 1,
            final(self).total() == old(self).total(),
            final(self).open_since() == Some(now),
    {
        self.last_idle_start = Some(now);
        self.idle_count = self.idle_count + 1;
    }

    /// Record leaving idle at `now`: the open period, if any, is added to
    /// the idle time and closed.
    pub fn exit_idle(&mut self, now: u64)
        requires
            old(self).open_since() matches Some(start) ==> start <= now && old(self).total() + (now - start) <= u64::MAX,
        ensures
            final(self).cpu_id() == old(self).cpu_id(),
            final(self).entries() == old(self).entries(),
            final(self).open_since() is None,
            final(self).total() == (match old(self).open_since() {
                Some(start) => (old(self).total() + (now - start)) as u64,
                None => old(self).total(),
            }),
    {
        match self.last_idle_start {
            Some(start) => {
                let elapsed = now - start;
                self.idle_time = self.idle_time + elapsed;
                self.last_idle_start = None;
            },
            None => {},
        }
    }

    /// The accounting so far.
    pub fn stats(&self) -> (s: IdleStats)
        ensures
            s == (IdleStats {
                cpu: self.cpu_id(),
                idle_count: self.entries(),
                total_idle_time: self.total(),
                currently_idle: self.open_since() is Some,
            }),
    {
        IdleStats {
            cpu: self.cpu,
            idle_count: self.idle_count,
            total_idle_time: self.idle_time,
            currently_idle: self.last_idle_start.is_some(),
        }
    }

    /// Forget the counts; an open idle period stays open.
    pub fn reset_stats(&mut self)
        ensures
            final(self).cpu_id() == old(self).cpu_id(),
            final(self).entries() == 0,
            final(self).total() == 0,
            final(self).open_since() == old(self).open_since(),
    {
        self.idle_count = 0;
        self.idle_time = 0;
    }
}

impl IdleStats {
    /// The mean length of an idle period, 0 with none recorded.
    pub fn avg_idle_time_ns(&self) -> (n: u64)
        ensures
            n == (if self.idle_count > 0 { self.total_idle_time / self.idle_count } else { 0 }),
    {
        if self.idle_count > 0 {
            self.total_idle_time / self.idle_count
        } else {
            0
        }
    }
}

/// How the power-managed idle loop waits.
#[derive(Debug, Clone, Copy, PartialEq, Eq, Structural)]
pub enum SleepDepth {
    /// Halt until the next interrupt.
    Light,
    /// The platform's deeper sleep state.
    Deep,
}

/// One pass of the power-managed idle loop at `now`: the first pass only
/// records when idling began; later passes sleep lightly, or deeply once
/// idle for more than 100 ms. Gives the idle start to carry to the next
/// pass and how to sleep.
pub fn power_managed_idle(idle_start: Option<u64>, now: u64) -> (r: (Option<u64>, Option<SleepDepth>))
    requires
        idle_start matches Some(start) ==> start <= now,
    ensures
        r == (match idle_start {
            None => (Some(now), None::<SleepDepth>),
            Some(start) => (Some(start), Some(if now - start > DEEP_SLEEP_THRESHOLD_NS { SleepDepth::Deep } else { SleepDepth::Light })),
        }),
{
    match idle_start {
        None => (Some(now), None),
        Some(start) => {
            let idle_time = now - start;
            if idle_time > DEEP_SLEEP_THRESHOLD_NS {
                (Some(start), Some(SleepDepth::Deep))
            } else {
                (Some(start), Some(SleepDepth::Light))
            }
        },
    }
}

} // verus!
