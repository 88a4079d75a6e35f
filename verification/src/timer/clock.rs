//! Clock sources, timestamps and durations.

use vstd::prelude::*;

verus! {

/// A point in time, in nanoseconds.
#[derive(Debug, Clone, Copy, PartialEq, Eq, Structural, PartialOrd, Ord)]
pub struct Timestamp {
    pub nanoseconds: u64,
}

/// A span of time, in nanoseconds.
#[derive(Debug, Clone, Copy, PartialEq, Eq, Structural, PartialOrd, Ord)]
pub struct Duration {
    nanoseconds: u64,
}

impl Duration {
    /// The span in nanoseconds.
    pub closed spec fn ns(&self) -> u64 {
        self.nanoseconds
    }

    /// A span of `ns` nanoseconds.
    pub fn new(ns: u64) -> (d: Self)
        ensures
            d.ns() == ns,
    {
        Duration { nanoseconds: ns }
    }

    /// A span of `us` microseconds.
    pub fn from_us(us: u64) -> (d: Self)
        requires
            us * 1_000 <= u64::MAX,
        ensures
            d.ns() == us * 1_000,
    {
        Duration { nanoseconds: us * 1_000 }
    }

    /// A span of `ms` milliseconds.
    pub fn from_ms(ms: u64) -> (d: Self)
        requires
            ms * 1_000_000 <= u64::MAX,
        ensures
            d.ns() == ms * 1_000_000,
    {
        Duration { nanoseconds: ms * 1_000_000 }
    }

    /// A span of `secs` seconds.
    pub fn from_secs(secs: u64) -> (d: Self)
        requires
            secs * 1_000_000_000 <= u64::MAX,
        ensures
            d.ns() == secs * 1_000_000_000,
    {
        Duration { nanoseconds: secs * 1_000_000_000 }
    }

    /// Whole nanoseconds.
    pub fn as_ns(self) -> (n: u64)
        ensures
            n == self.ns(),
    {
        self.nanoseconds
    }

    /// Whole microseconds.
    pub fn as_us(self) -> (n: u64)
        ensures
            n == self.ns() / 1_000,
    {
        self.nanoseconds / 1_000
    }

    /// Whole milliseconds.
    pub fn as_ms(self) -> (n: u64)
        ensures
            n == self.ns() / 1_000_000,
    {
        self.nanoseconds / 1_000_000
    }

    /// Whole seconds.
    pub fn as_secs(self) -> (n: u64)
        ensures
            n == self.ns() / 1_000_000_000,
    {
        self.nanoseconds / 1_000_000_000
    }
}

impl Default for Duration {
    fn default() -> (d: Self)
        ensures
            d.ns() == 0,
    {
        Duration { nanoseconds: 0 }
    }
}

/// A duration made from a unit and read back in that unit gives the
/// count it was made from.
pub proof fn lemma_duration_round_trip(n: u64)
    ensures
        n * 1_000 <= u64::MAX ==> (n * 1_000) / 1_000 == n,
        n * 1_000_000 <= u64::MAX ==> (n * 1_000_000) / 1_000_000 == n,
        n * 1_000_000_000 <= u64::MAX ==> (n * 1_000_000_000) / 1_000_000_000 == n,
{
    assert((n * 1_000) / 1_000 == n) by (nonlinear_arith);
    assert((n * 1_000_000) / 1_000_000 == n) by (nonlinear_arith);
    assert((n * 1_000_000_000) / 1_000_000_000 == n) by (nonlinear_arith);
}

impl Timestamp {
    /// The time `ns` nanoseconds.
    pub fn new(ns: u64) -> (t: Self)
        ensures
            t.nanoseconds == ns,
    {
        Timestamp { nanoseconds: ns }
    }

    /// Whole nanoseconds.
    pub fn as_ns(self) -> (n: u64)
        ensures
            n == self.nanoseconds,
    {
        self.nanoseconds
    }

    /// Whole milliseconds.
    pub fn as_ms(self) -> (n: u64)
        ensures
            n == self.nanoseconds / 1_000_000,
    {
        self.nanoseconds / 1_000_000
    }

    /// Whole seconds.
    pub fn as_secs(self) -> (n: u64)
        ensures
            n == self.nanoseconds / 1_000_000_000,
    {
        self.nanoseconds / 1_000_000_000
    }

    /// The time `duration` later, saturating at the largest time.
    pub fn add(self, duration: Duration) -> (t: Timestamp)
        ensures
            t.nanoseconds == (if self.nanoseconds + duration.ns() > u64::MAX { u64::MAX } else { (self.nanoseconds + duration.ns()) as u64 }),
    {
        Timestamp::new(self.nanoseconds.saturating_add(duration.nanoseconds))
    }

    /// The time `duration` earlier, saturating at zero.
    pub fn sub(self, duration: Duration) -> (t: Timestamp)
        ensures
            t.nanoseconds == (if self.nanoseconds < duration.ns() { 0 } else { (self.nanoseconds - duration.ns()) as u64 }),
    {
        Timestamp::new(self.nanoseconds.saturating_sub(duration.nanoseconds))
    }
}

impl Default for Timestamp {
    fn default() -> (t: Self)
        ensures
            t.nanoseconds == 0,
    {
        Timestamp { nanoseconds: 0 }
    }
}

/// Adding then subtracting a duration gives the time back when the sum
/// did not saturate.
pub proof fn lemma_add_sub_round_trip(t: Timestamp, d: Duration)
    requires
        t.nanoseconds + d.ns() <= u64::MAX,
    ensures
        ({
            let later = (t.nanoseconds + d.ns()) as u64;
            (if later < d.ns() { 0 } else { (later - d.ns()) as u64 }) == t.nanoseconds
        }),
{
}

/// A source of time.
pub trait ClockSource {
    /// The current time.
    fn now(&self) -> Timestamp;

    /// The smallest step the source can tell apart.
    fn resolution(&self) -> Duration;

    /// The source's name.
    fn name(&self) -> &'static str;

    /// The source can be read.
    fn is_available(&self) -> bool;
}

/// A clock counting 100 ns ticks.
pub struct MonotonicClock {
    ticks: u64,
}

impl MonotonicClock {
    #[verifier::type_invariant]
    spec fn ticks_fit(self) -> bool {
        self.ticks * 100 <= u64::MAX
    }

    /// The ticks counted.
    pub closed spec fn tick_count(&self) -> u64 {
        self.ticks
    }

    /// A clock at tick 0.
    pub fn new() -> (c: Self)
        ensures
            c.tick_count() == 0,
    {
        MonotonicClock { ticks: 0 }
    }
}

impl ClockSource for MonotonicClock {
    fn now(&self) -> (t: Timestamp)
        ensures
            t.nanoseconds == self.tick_count() * 100,
    {
        proof {
            use_type_invariant(self);
        }
        Timestamp::new(self.ticks * 100)
    }

    fn resolution(&self) -> (d: Duration)
        ensures
            d.ns() == 100,
    {
        Duration::new(100)
    }

    fn name(&self) -> (n: &'static str)
        ensures
            n@ == "monotonic"@,
    {
        "monotonic"
    }

    fn is_available(&self) -> (b: bool)
        ensures
            b,
    {
        true
    }
}

impl Default for MonotonicClock {
    fn default() -> (c: Self)
        ensures
            c.tick_count() == 0,
    {
        MonotonicClock::new()
    }
}

/// The system clock: reads its primary source, or 0 without one.
pub struct SystemClock {
    primary: Option<MonotonicClock>,
}

impl SystemClock {
    /// The clock's primary source.
    pub closed spec fn source(&self) -> Option<MonotonicClock> {
        self.primary
    }

    /// A clock with no primary source.
    pub fn new() -> (c: Self)
        ensures
            c.source() is None,
    {
        SystemClock { primary: None }
    }

    /// The current time: the primary source's, or 0.
    pub fn now(&self) -> (t: Timestamp)
        ensures
            self.source() is None ==> t.nanoseconds == 0,
            self.source() matches Some(p) ==> t.nanoseconds == p.tick_count() * 100,
    {
        match &self.primary {
            Some(p) => {
                proof {
                    use_type_invariant(p);
                }
                Timestamp::new(p.ticks * 100)
            },
            None => Timestamp { nanoseconds: 0 },
        }
    }
}

} // verus!
