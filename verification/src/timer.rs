//! Timekeeping and timed callbacks.
//!
//! The kernel time advances 10 ms per timer interrupt. Callbacks are
//! scheduled on a timer wheel, created on first use, and named by tokens
//! that expiring hands back for the caller to run.

pub mod clock;
pub mod wheel;
pub mod hpet;
pub mod lapic;

use crate::ids::IdCounter;
use crate::scheduler::{switch_decided, Scheduler, SwitchDecision};
use crate::timer::lapic::LapicTimer;
use crate::timer::wheel::{cancelled, expired, fired_all, fresh, scheduled, TimerWheel};
use vstd::prelude::*;

verus! {

/// Nanoseconds the kernel time advances per timer interrupt.
pub const TICK_NS: u64 = 10_000_000;

/// A timer identifier; 0 names no timer.
#[derive(Debug, Clone, Copy, PartialEq, Eq, Structural, Hash)]
pub struct TimerId(pub u64);

impl TimerId {
    /// A fresh identifier drawn from `ids`.
    pub fn new(ids: &mut IdCounter) -> (id: Self)
        ensures
            id.0 == old(ids).peek(),
            final(ids).peek() == (if old(ids).peek() == u64::MAX { 0 } else { (old(ids).peek() + 1) as u64 }),
    {
        TimerId(ids.next_id())
    }

    /// The raw identifier.
    pub fn as_u64(self) -> (r: u64)
        ensures
            r == self.0,
    {
        self.0
    }

    /// The identifier `id`.
    pub fn from_u64(id: u64) -> (t: Self)
        ensures
            t.0 == id,
    {
        TimerId(id)
    }
}

/// What can go wrong with a timer.
#[derive(Debug, Clone, Copy, PartialEq, Eq, Structural)]
pub enum TimerError {
    InvalidId,
    AlreadyExpired,
    WheelFull,
}

/// The description of each timer error.
pub open spec fn timer_error_text(e: TimerError) -> Seq<char> {
    match e {
        TimerError::InvalidId => "Invalid timer ID"@,
        TimerError::AlreadyExpired => "Timer already expired"@,
        TimerError::WheelFull => "Timer wheel full"@,
    }
}

impl TimerError {
    /// The human-readable description of the error.
    pub fn message(&self) -> (m: &'static str)
        ensures
            m@ == timer_error_text(*self),
    {
        match self {
            TimerError::InvalidId => "Invalid timer ID",
            TimerError::AlreadyExpired => "Timer already expired",
            TimerError::WheelFull => "Timer wheel full",
        }
    }
}

/// The timer subsystem's state: the kernel time, the wheel once created,
/// the source of timer identifiers and the LAPIC calibration.
pub struct Timer {
    pub time_ns: u64,
    pub wheel: Option<TimerWheel>,
    pub ids: IdCounter,
    pub lapic: LapicTimer,
}

impl Timer {
    /// The wheel, if created, is well formed.
    pub open spec fn wf(&self) -> bool {
        self.wheel matches Some(w) ==> w.wf()
    }

    /// Time 0, no wheel, identifiers from 1.
    pub fn new() -> (t: Self)
        ensures
            t.wf(),
            t.time_ns == 0,
            t.wheel is None,
            t.ids.peek() == 1,
            t.lapic.ticks_10ms == 0,
    {
        Timer { time_ns: 0, wheel: None, ids: IdCounter::new(), lapic: LapicTimer::new() }
    }
}

/// Bring the timer subsystem up: a fresh state.
pub fn init() -> (t: Timer)
    ensures
        t.wf(),
        t.time_ns == 0,
        t.wheel is None,
        t.ids.peek() == 1,
        t.lapic.ticks_10ms == 0,
{
    Timer::new()
}

/// Advance the kernel time by one 10 ms tick (wrapping).
pub fn advance_time_10ms(timer: &mut Timer)
    ensures
        final(timer).time_ns == vstd::wrapping::u64_specs::wrapping_add(old(timer).time_ns, TICK_NS),
        final(timer).wheel == old(timer).wheel,
        final(timer).ids == old(timer).ids,
        final(timer).lapic == old(timer).lapic,
{
    timer.time_ns = timer.time_ns.wrapping_add(TICK_NS);
}

/// The kernel time in nanoseconds.
pub fn current_time(timer: &Timer) -> (t: u64)
    ensures
        t == timer.time_ns,
{
    timer.time_ns
}

/// Set the kernel time.
pub fn update_time(timer: &mut Timer, time_ns: u64)
    ensures
        final(timer).time_ns == time_ns,
        final(timer).wheel == old(timer).wheel,
        final(timer).ids == old(timer).ids,
        final(timer).lapic == old(timer).lapic,
{
    timer.time_ns = time_ns;
}

/// Schedule `callback` to fire `delay_ns` after the wheel's last expiry
/// pass (see `TimerWheel::schedule`), creating the wheel on first use.
pub fn schedule_callback(timer: &mut Timer, delay_ns: u64, callback: u64) -> (id: TimerId)
    requires
        old(timer).wf(),
        old(timer).wheel matches Some(w) ==> w.active() < usize::MAX,
    ensures
        final(timer).wf(),
        id.0 == old(timer).ids.peek(),
        final(timer).ids.peek() == (if old(timer).ids.peek() == u64::MAX { 0 } else { (old(timer).ids.peek() + 1) as u64 }),
        final(timer).time_ns == old(timer).time_ns,
        final(timer).lapic == old(timer).lapic,
        final(timer).wheel matches Some(w2) && match old(timer).wheel {
            Some(w) => scheduled(w, w2, delay_ns, callback, id),
            None => exists|w0: TimerWheel| #[trigger] fresh(w0) && scheduled(w0, w2, delay_ns, callback, id),
        },
{
    match timer.wheel.take() {
        Some(w) => {
            let mut w = w;
            let id = w.schedule(&mut timer.ids, delay_ns, callback);
            timer.wheel = Some(w);
            id
        },
        None => {
            let mut w = TimerWheel::new();
            let ghost w0 = w;
            let id = w.schedule(&mut timer.ids, delay_ns, callback);
            assert(fresh(w0) && scheduled(w0, w, delay_ns, callback, id));
            timer.wheel = Some(w);
            id
        },
    }
}

/// Schedule `callback` for the kernel time `deadline_ns`; a deadline
/// already reached is scheduled with no delay.
pub fn schedule_at(timer: &mut Timer, deadline_ns: u64, callback: u64) -> (id: TimerId)
    requires
        old(timer).wf(),
        old(timer).wheel matches Some(w) ==> w.active() < usize::MAX,
    ensures
        final(timer).wf(),
        id.0 == old(timer).ids.peek(),
        final(timer).time_ns == old(timer).time_ns,
        ({
            let delay = if deadline_ns > old(timer).time_ns { (deadline_ns - old(timer).time_ns) as u64 } else { 0 };
            final(timer).wheel matches Some(w2) && match old(timer).wheel {
                Some(w) => scheduled(w, w2, delay, callback, id),
                None => exists|w0: TimerWheel| #[trigger] fresh(w0) && scheduled(w0, w2, delay, callback, id),
            }
        }),
{
    let now = current_time(timer);
    if deadline_ns > now {
        schedule_callback(timer, deadline_ns - now, callback)
    } else {
        schedule_callback(timer, 0, callback)
    }
}

/// Cancel a timer; an unknown one is ignored.
pub fn cancel_callback(timer: &mut Timer, id: TimerId)
    requires
        old(timer).wf(),
    ensures
        final(timer).wf(),
        final(timer).time_ns == old(timer).time_ns,
        final(timer).ids == old(timer).ids,
        old(timer).wheel is None ==> final(timer).wheel is None,
        old(timer).wheel matches Some(w) ==> final(timer).wheel matches Some(w2) && cancelled(w, w2, id),
{
    match timer.wheel.take() {
        Some(w) => {
            let mut w = w;
            let _ = w.cancel(id);
            timer.wheel = Some(w);
        },
        None => {},
    }
}

/// Expire the wheel at the kernel time; gives the tokens of the callbacks
/// to run.
pub fn check_timers(timer: &mut Timer) -> (fired: Vec<u64>)
    requires
        old(timer).wf(),
    ensures
        final(timer).wf(),
        final(timer).time_ns == old(timer).time_ns,
        final(timer).ids == old(timer).ids,
        old(timer).wheel is None ==> fired@.len() == 0 && final(timer).wheel is None,
        old(timer).wheel matches Some(w) ==> {
            &&& fired@ == fired_all(w, old(timer).time_ns)
            &&& final(timer).wheel matches Some(w2) && expired(w, w2, old(timer).time_ns)
        },
{
    let now = timer.time_ns;
    match timer.wheel.take() {
        Some(w) => {
            let mut w = w;
            let fired = w.check_expired(now);
            timer.wheel = Some(w);
            fired
        },
        None => Vec::new(),
    }
}

/// One timer interrupt: advance the time by 10 ms, expire the wheel, and
/// tick the scheduler. Gives the callback tokens to run and the
/// scheduler's switch decision.
pub fn on_tick(timer: &mut Timer, sched: &mut Scheduler) -> (r: (Vec<u64>, SwitchDecision))
    requires
        old(timer).wf(),
        old(sched).wf(),
    ensures
        final(timer).wf(),
        final(sched).wf(),
        final(timer).time_ns == vstd::wrapping::u64_specs::wrapping_add(old(timer).time_ns, TICK_NS),
        old(timer).wheel matches Some(w) ==> {
            &&& r.0@ == fired_all(w, final(timer).time_ns)
            &&& final(timer).wheel matches Some(w2) && expired(w, w2, final(timer).time_ns)
        },
        old(timer).wheel is None ==> r.0@.len() == 0 && final(timer).wheel is None,
        final(sched).ticks == vstd::wrapping::usize_specs::wrapping_add(old(sched).ticks, 1),
        final(sched).table.slots == old(sched).table.slots,
        final(sched).table.len == old(sched).table.len,
        final(sched).idle_idx == old(sched).idle_idx,
        switch_decided(*old(sched), *final(sched), r.1),
{
    advance_time_10ms(timer);
    let fired = check_timers(timer);
    let decision = crate::scheduler::tick(sched);
    (fired, decision)
}

} // verus!
