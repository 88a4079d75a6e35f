//! A hierarchical timer wheel: four levels of eight slots of growing
//! granularity, and eight overflow entries for far deadlines.
//!
//! A timer's callback is named by a token; expiring hands the tokens of
//! the expired timers back to the caller, who runs the callbacks.

use crate::ids::IdCounter;
use crate::timer::{TimerError, TimerId};
use vstd::prelude::*;

verus! {

/// Levels of the wheel.
pub const NUM_WHEELS: usize = 4;
/// Slots per level.
pub const WHEEL_SLOTS: usize = 8;
/// Overflow entries.
pub const OVERFLOW_SLOTS: usize = 8;

/// One scheduled timer; identifier 0 marks an empty entry.
#[derive(Debug, Clone, Copy, PartialEq, Eq, Structural)]
pub struct WheelEntry {
    pub expiry_ns: u64,
    pub callback: u64,
    pub id: TimerId,
}

/// The empty entry.
pub open spec fn empty_entry() -> WheelEntry {
    WheelEntry { expiry_ns: u64::MAX, callback: 0, id: TimerId(0) }
}

impl WheelEntry {
    /// The empty entry.
    pub fn empty() -> (e: Self)
        ensures
            e == empty_entry(),
    {
        WheelEntry { expiry_ns: u64::MAX, callback: 0, id: TimerId(0) }
    }
}

/// Nanoseconds per slot of `level`.
pub open spec fn granularity(level: int) -> u64 {
    if level == 0 { 1_000_000 } else if level == 1 { 8_000_000 } else if level == 2 { 64_000_000 } else if level == 3 { 512_000_000 } else { 1_000_000_000 }
}

/// How far ahead `level` reaches.
pub open spec fn level_range(level: int) -> u64 {
    if level == 3 { (granularity(level) * 32) as u64 } else { (granularity(level) * 8) as u64 }
}

/// The first level from `level` whose reach covers `delta`; 4 if none.
pub open spec fn level_for(delta: u64, level: int) -> int
    decreases 4 - level,
{
    if level >= 4 || level < 0 {
        4
    } else if delta < level_range(level) {
        level
    } else {
        level_for(delta, level + 1)
    }
}

/// The slot of `level` that time `t` falls in.
pub open spec fn slot_of(t: u64, level: int) -> int {
    ((t / granularity(level)) % 8) as int
}

/// The entry holds a timer that has expired at `now`.
pub open spec fn expires(e: WheelEntry, now: u64) -> bool {
    e.id.0 != 0 && e.expiry_ns <= now
}

/// Live entries among the first `n` of `es`.
pub open spec fn live(es: Seq<WheelEntry>, n: nat) -> nat
    decreases n,
{
    if n == 0 {
        0
    } else {
        live(es, (n - 1) as nat) + (if es[n - 1].id.0 != 0 { 1nat } else { 0nat })
    }
}

/// Live entries in the first `n` levels.
pub open spec fn live_levels(ws: Seq<Seq<WheelEntry>>, n: nat) -> nat
    decreases n,
{
    if n == 0 {
        0
    } else {
        live_levels(ws, (n - 1) as nat) + live(ws[n - 1], 8)
    }
}

/// The tokens of the entries of `es` from `k` on that expire at `now`,
/// in slot order.
pub open spec fn fired_from(es: Seq<WheelEntry>, now: u64, k: int) -> Seq<u64>
    decreases 8 - k,
{
    if k >= 8 || k < 0 {
        seq![]
    } else {
        (if expires(es[k], now) { seq![es[k].callback] } else { seq![] }) + fired_from(es, now, k + 1)
    }
}

/// The tokens fired by expiring the levels from `level` on at `now`.
pub open spec fn fired_levels(ws: Seq<Seq<WheelEntry>>, now: u64, level: int) -> Seq<u64>
    decreases 4 - level,
{
    if level >= 4 || level < 0 {
        seq![]
    } else {
        fired_from(ws[level], now, 0) + fired_levels(ws, now, level + 1)
    }
}

/// A level after expiring at `now`: every entry that expires becomes
/// empty.
pub open spec fn expired_level(es: Seq<WheelEntry>, now: u64) -> Seq<WheelEntry> {
    Seq::new(es.len(), |k: int| if expires(es[k], now) { empty_entry() } else { es[k] })
}

/// The first index from `k` of an entry with identifier `id`; `n` if none.
pub open spec fn find_id(es: Seq<WheelEntry>, id: TimerId, k: int, n: int) -> int
    decreases n - k,
{
    if k >= n || k < 0 {
        n
    } else if es[k].id == id {
        k
    } else {
        find_id(es, id, k + 1, n)
    }
}

/// The first level from `level` holding an entry with identifier `id`;
/// 4 if none.
pub open spec fn find_level(ws: Seq<Seq<WheelEntry>>, id: TimerId, level: int) -> int
    decreases 4 - level,
{
    if level >= 4 || level < 0 {
        4
    } else if find_id(ws[level], id, 0, 8) < 8 {
        level
    } else {
        find_level(ws, id, level + 1)
    }
}

proof fn lemma_live_update(es: Seq<WheelEntry>, i: int, v: WheelEntry, n: nat)
    requires
        0 <= i < es.len(),
        n <= es.len(),
    ensures
        live(es.update(i, v), n) + (if i < n && es[i].id.0 != 0 { 1int } else { 0int })
            == live(es, n) + (if i < n && v.id.0 != 0 { 1int } else { 0int }),
    decreases n,
{
    if n > 0 {
        lemma_live_update(es, i, v, (n - 1) as nat);
    }
}

proof fn lemma_live_levels_update(ws: Seq<Seq<WheelEntry>>, l: int, es: Seq<WheelEntry>, n: nat)
    requires
        0 <= l < ws.len(),
        n <= ws.len(),
    ensures
        live_levels(ws.update(l, es), n) + (if l < n { live(ws[l], 8) as int } else { 0int })
            == live_levels(ws, n) + (if l < n { live(es, 8) as int } else { 0int }),
    decreases n,
{
    if n > 0 {
        lemma_live_levels_update(ws, l, es, (n - 1) as nat);
    }
}

proof fn lemma_live_positive(es: Seq<WheelEntry>, i: int, n: nat)
    requires
        0 <= i < n <= es.len(),
        es[i].id.0 != 0,
    ensures
        live(es, n) >= 1,
    decreases n,
{
    if i < n - 1 {
        lemma_live_positive(es, i, (n - 1) as nat);
    }
}

proof fn lemma_live_bound(es: Seq<WheelEntry>, n: nat)
    requires
        n <= es.len(),
    ensures
        live(es, n) <= n,
    decreases n,
{
    if n > 0 {
        lemma_live_bound(es, (n - 1) as nat);
    }
}

proof fn lemma_live_level_le(ws: Seq<Seq<WheelEntry>>, l: int, n: nat)
    requires
        0 <= l < n <= ws.len(),
    ensures
        live(ws[l], 8) <= live_levels(ws, n),
    decreases n,
{
    if l < n - 1 {
        lemma_live_level_le(ws, l, (n - 1) as nat);
    }
}

proof fn lemma_live_levels_positive(ws: Seq<Seq<WheelEntry>>, l: int, n: nat)
    requires
        0 <= l < n <= ws.len(),
        live(ws[l], 8) >= 1,
    ensures
        live_levels(ws, n) >= 1,
    decreases n,
{
    if l < n - 1 {
        lemma_live_levels_positive(ws, l, (n - 1) as nat);
    }
}

/// The timer wheel.
pub struct TimerWheel {
    current_time: u64,
    wheels: Vec<Vec<WheelEntry>>,
    overflow: Vec<WheelEntry>,
    overflow_count: usize,
    active_count: usize,
}

impl TimerWheel {
    /// The levels' entries.
    pub closed spec fn levels(&self) -> Seq<Seq<WheelEntry>> {
        Seq::new(self.wheels@.len(), |l: int| self.wheels@[l]@)
    }

    /// The overflow entries.
    pub closed spec fn spill(&self) -> Seq<WheelEntry> {
        self.overflow@
    }

    /// Overflow entries in use, by the wheel's count.
    pub closed spec fn spill_count(&self) -> usize {
        self.overflow_count
    }

    /// Timers the wheel counts as active.
    pub closed spec fn active(&self) -> usize {
        self.active_count
    }

    /// The time of the last expiry pass.
    pub closed spec fn now(&self) -> u64 {
        self.current_time
    }

    /// Four levels of eight slots, eight overflow entries, and counts that
    /// cover every live timer.
    pub open spec fn wf(&self) -> bool {
        &&& self.levels().len() == 4
        &&& forall|l: int| 0 <= l < 4 ==> (#[trigger] self.levels()[l]).len() == 8
        &&& self.spill().len() == 8
        &&& self.spill_count() <= 8
        &&& live(self.spill(), 8) <= self.spill_count()
        &&& live_levels(self.levels(), 4) + live(self.spill(), 8) <= self.active()
    }

    proof fn lemma_levels(&self)
        ensures
            self.levels().len() == self.wheels@.len(),
            forall|l: int| 0 <= l < self.wheels@.len() ==> #[trigger] self.levels()[l] == self.wheels@[l]@,
    {
    }

    /// An empty wheel at time 0.
    pub fn new() -> (w: Self)
        ensures
            w.wf(),
            fresh(w),
    {
        let mut wheels: Vec<Vec<WheelEntry>> = Vec::new();
        while wheels.len() < NUM_WHEELS
            invariant
                wheels@.len() <= 4,
                forall|l: int| 0 <= l < wheels@.len() ==> (#[trigger] wheels@[l])@.len() == 8,
                forall|l: int, k: int| 0 <= l < wheels@.len() && 0 <= k < 8 ==> #[trigger] wheels@[l]@[k] == empty_entry(),
            decreases 4 - wheels@.len(),
        {
            wheels.push(empty_slots());
        }
        let w = TimerWheel { current_time: 0, wheels, overflow: empty_slots(), overflow_count: 0, active_count: 0 };
        proof {
            w.lemma_levels();
            assert forall|l: int| 0 <= l < 4 implies live(#[trigger] w.levels()[l], 8) == 0 by {
                lemma_live_empty(w.levels()[l], 8);
            }
            lemma_live_levels_zero(w.levels(), 4);
            lemma_live_empty(w.spill(), 8);
        }
        w
    }

    /// Schedule the callback `callback` to fire `delay_ns` after the last
    /// expiry pass (saturating), with a fresh identifier from `ids`: in the
    /// first level that reaches that far, at the slot of the expiry time,
    /// replacing what was there; else in the next overflow entry; with the
    /// overflow full the timer is dropped. Gives the identifier either way.
    pub fn schedule(&mut self, ids: &mut IdCounter, delay_ns: u64, callback: u64) -> (id: TimerId)
        requires
            old(self).wf(),
            old(self).active() < usize::MAX,
        ensures
            final(self).wf(),
            id.0 == old(ids).peek(),
            final(ids).peek() == (if old(ids).peek() == u64::MAX { 0 } else { (old(ids).peek() + 1) as u64 }),
            scheduled(*old(self), *final(self), delay_ns, callback, id),
    {
        let now = self.current_time;
        let expiry = now.saturating_add(delay_ns);
        let id = TimerId(ids.next_id());
        let entry = WheelEntry { expiry_ns: expiry, callback, id };
        let delta = expiry - now;
        let mut level: usize = 0;
        while level < NUM_WHEELS
            invariant
                self.wf(),
                *self == *old(self),
                level <= 4,
                level_for(delta, 0) == level_for(delta, level as int),
                old(self).active() < usize::MAX,
                id.0 == old(ids).peek(),
                ids.peek() == (if old(ids).peek() == u64::MAX { 0 } else { (old(ids).peek() + 1) as u64 }),
                now == old(self).now(),
                expiry == (if now + delay_ns > u64::MAX { u64::MAX } else { (now + delay_ns) as u64 }),
                delta == expiry - now,
                entry == (WheelEntry { expiry_ns: expiry, callback, id }),
            decreases 4 - level,
        {
            let granularity: u64 = level_granularity(level);
            let range: u64 = if level == 3 { granularity * 32 } else { granularity * 8 };
            if delta < range {
                let q = expiry / granularity;
                proof {
                    self.lemma_levels();
                    assert(q & 7 == q % 8) by (bit_vector);
                }
                let idx = (q & 7) as usize;
                let ghost before = self.levels();
                let mut lv = self.wheels.remove(level);
                let ghost old_lv = lv@;
                assert(old_lv == before[level as int]);
                lv.set(idx, entry);
                self.wheels.insert(level, lv);
                proof {
                    self.lemma_levels();
                    assert(self.levels() =~= before.update(level as int, old_lv.update(idx as int, entry)));
                    lemma_live_update(old_lv, idx as int, entry, 8);
                    lemma_live_levels_update(before, level as int, old_lv.update(idx as int, entry), 4);
                }
                self.active_count = self.active_count + 1;
                return id;
            }
            level += 1;
        }
        if self.overflow_count < OVERFLOW_SLOTS {
            let ghost before = self.overflow@;
            self.overflow.set(self.overflow_count, entry);
            proof {
                lemma_live_update(before, old(self).spill_count() as int, entry, 8);
            }
            self.overflow_count = self.overflow_count + 1;
            self.active_count = self.active_count + 1;
        }
        id
    }

    /// Expire at `now`: record the time, and in every slot of each level,
    /// then in the overflow, empty every live entry due by `now`. Gives the
    /// tokens of the expired timers, level by level in slot order, then
    /// those of the overflow.
    pub fn check_expired(&mut self, now: u64) -> (fired: Vec<u64>)
        requires
            old(self).wf(),
        ensures
            final(self).wf(),
            fired@ == fired_all(*old(self), now),
            expired(*old(self), *final(self), now),
    {
        self.current_time = now;
        let ghost w0 = self.levels();
        let mut fired: Vec<u64> = Vec::new();
        let mut level: usize = 0;
        while level < NUM_WHEELS
            invariant
                self.wf(),
                self.now() == now,
                self.spill() == old(self).spill(),
                self.spill_count() == old(self).spill_count(),
                level <= 4,
                w0.len() == 4,
                forall|l: int| 0 <= l < 4 ==> (#[trigger] w0[l]).len() == 8,
                forall|l: int| 0 <= l < level ==> #[trigger] self.levels()[l] == expired_level(w0[l], now),
                forall|l: int| level <= l < 4 ==> #[trigger] self.levels()[l] == w0[l],
                fired@ + fired_levels(w0, now, level as int) == fired_levels(w0, now, 0),
                self.active() + fired@.len() == old(self).active(),
            decreases 4 - level,
        {
            proof {
                self.lemma_levels();
            }
            let ghost before = self.levels();
            let ghost es0 = w0[level as int];
            let mut lv = self.wheels.remove(level);
            assert(lv@ == before[level as int]);
            assert(lv@ == es0);
            let ghost removed = self.wheels@;
            proof {
                lemma_live_level_le(before, level as int, 4);
            }
            let mut k: usize = 0;
            let ghost fired_before = fired@;
            let ghost active_before = self.active_count;
            while k < WHEEL_SLOTS
                invariant
                    lv@.len() == 8,
                    k <= 8,
                    forall|j: int| 0 <= j < 8 ==> #[trigger] lv@[j] == (if j < k && expires(es0[j], now) { empty_entry() } else { es0[j] }),
                    fired@ + fired_from(es0, now, k as int) == fired_before + fired_from(es0, now, 0),
                    live(lv@, 8) + (fired@.len() - fired_before.len()) == live(es0, 8),
                    self.active_count + (fired@.len() - fired_before.len()) == active_before,
                    fired@.len() >= fired_before.len(),
                    active_before >= live(es0, 8),
                    self.wheels@ == removed,
                    removed.len() == 3,
                    level < 4,
                    self.current_time == now,
                    self.overflow@ == old(self).overflow@,
                    self.overflow_count == old(self).overflow_count,
                decreases 8 - k,
            {
                let e = lv[k];
                if e.id.0 != 0 && e.expiry_ns <= now {
                    proof {
                        lemma_live_update(lv@, k as int, empty_entry(), 8);
                        lemma_live_positive(lv@, k as int, 8);
                    }
                    let ghost f = fired@;
                    fired.push(e.callback);
                    lv.set(k, WheelEntry::empty());
                    self.active_count = self.active_count - 1;
                    proof {
                        assert(fired@ + fired_from(es0, now, (k + 1) as int) =~= f + fired_from(es0, now, k as int));
                    }
                } else {
                    proof {
                        assert(fired@ + fired_from(es0, now, (k + 1) as int) =~= fired@ + fired_from(es0, now, k as int));
                    }
                }
                k += 1;
            }
            self.wheels.insert(level, lv);
            proof {
                self.lemma_levels();
                assert(lv@ =~= expired_level(es0, now));
                assert(self.levels() =~= before.update(level as int, lv@));
                lemma_live_levels_update(before, level as int, lv@, 4);
                assert(fired@ + fired_levels(w0, now, (level + 1) as int) =~= fired_before + fired_levels(w0, now, level as int));
            }
            level += 1;
        }
        proof {
            assert(fired@ =~= fired_levels(w0, now, 0));
            assert(self.levels() =~= Seq::new(4, |l: int| expired_level(w0[l], now)));
        }
        let ghost fired_lv = fired@;
        let ghost sp0 = self.overflow@;
        let ghost count0 = self.overflow_count;
        let ghost active0 = self.active_count;
        let ghost lv_after = self.levels();
        let mut k: usize = 0;
        while k < OVERFLOW_SLOTS
            invariant
                self.wf(),
                self.now() == now,
                self.levels() == lv_after,
                sp0.len() == 8,
                self.overflow@.len() == 8,
                k <= 8,
                forall|j: int| 0 <= j < 8 ==> #[trigger] self.overflow@[j] == (if j < k && expires(sp0[j], now) { empty_entry() } else { sp0[j] }),
                fired@ + fired_from(sp0, now, k as int) == fired_lv + fired_from(sp0, now, 0),
                fired@.len() >= fired_lv.len(),
                self.overflow_count + (fired@.len() - fired_lv.len()) == count0,
                self.active_count + (fired@.len() - fired_lv.len()) == active0,
            decreases 8 - k,
        {
            let e = self.overflow[k];
            if e.id.0 != 0 && e.expiry_ns <= now {
                let ghost before = self.overflow@;
                proof {
                    lemma_live_update(before, k as int, empty_entry(), 8);
                    lemma_live_positive(before, k as int, 8);
                }
                let ghost f = fired@;
                fired.push(e.callback);
                self.overflow.set(k, WheelEntry::empty());
                self.overflow_count = self.overflow_count - 1;
                self.active_count = self.active_count - 1;
                proof {
                    assert(fired@ + fired_from(sp0, now, (k + 1) as int) =~= f + fired_from(sp0, now, k as int));
                }
            } else {
                proof {
                    assert(fired@ + fired_from(sp0, now, (k + 1) as int) =~= fired@ + fired_from(sp0, now, k as int));
                }
            }
            k += 1;
        }
        proof {
            assert(self.overflow@ =~= expired_level(sp0, now));
            assert(fired@ =~= fired_all(*old(self), now));
        }
        fired
    }

    /// Cancel the timer `id`: the first entry holding it, level by level,
    /// then in the overflow, becomes empty. Identifier 0, or one not found,
    /// is refused as invalid.
    pub fn cancel(&mut self, id: TimerId) -> (r: Result<(), TimerError>)
        requires
            old(self).wf(),
        ensures
            final(self).wf(),
            r == cancel_outcome(*old(self), id),
            cancelled(*old(self), *final(self), id),
    {
        if id.0 == 0 {
            return Err(TimerError::InvalidId);
        }
        let mut level: usize = 0;
        while level < NUM_WHEELS
            invariant
                self.wf(),
                *self == *old(self),
                id.0 != 0,
                level <= 4,
                find_level(self.levels(), id, 0) == find_level(self.levels(), id, level as int),
            decreases 4 - level,
        {
            proof {
                self.lemma_levels();
            }
            let ghost es = self.levels()[level as int];
            match find_entry(&self.wheels[level], id) {
                Some(k) => {
                    let ghost before = self.levels();
                    let mut lv = self.wheels.remove(level);
                    lv.set(k, WheelEntry::empty());
                    self.wheels.insert(level, lv);
                    proof {
                        self.lemma_levels();
                        assert(self.levels() =~= before.update(level as int, es.update(k as int, empty_entry())));
                        lemma_live_update(es, k as int, empty_entry(), 8);
                        lemma_live_positive(es, k as int, 8);
                        lemma_live_levels_update(before, level as int, es.update(k as int, empty_entry()), 4);
                        lemma_live_levels_positive(before, level as int, 4);
                    }
                    self.active_count = self.active_count - 1;
                    return Ok(());
                },
                None => {},
            }
            level += 1;
        }
        match find_entry(&self.overflow, id) {
            Some(k) => {
                let ghost before = self.overflow@;
                self.overflow.set(k, WheelEntry::empty());
                proof {
                    lemma_live_update(before, k as int, empty_entry(), 8);
                    lemma_live_positive(before, k as int, 8);
                }
                self.overflow_count = self.overflow_count - 1;
                self.active_count = self.active_count - 1;
                Ok(())
            },
            None => Err(TimerError::InvalidId),
        }
    }

    /// Timers the wheel counts as active.
    pub fn active_count(&self) -> (n: usize)
        ensures
            n == self.active(),
    {
        self.active_count
    }
}

/// An empty wheel at time 0.
pub open spec fn fresh(w: TimerWheel) -> bool {
    &&& w.now() == 0
    &&& w.active() == 0
    &&& w.spill_count() == 0
    &&& forall|l: int, k: int| 0 <= l < 4 && 0 <= k < 8 ==> #[trigger] w.levels()[l][k] == empty_entry()
    &&& forall|k: int| 0 <= k < 8 ==> #[trigger] w.spill()[k] == empty_entry()
}

/// `after` is `before` with timer `id` for `callback` scheduled
/// `delay_ns` after the last pass (saturating): in the first level that
/// reaches the expiry, at the expiry's slot; else in the next overflow
/// entry; else dropped.
pub open spec fn scheduled(before: TimerWheel, after: TimerWheel, delay_ns: u64, callback: u64, id: TimerId) -> bool {
    let now = before.now();
    let expiry = (if now + delay_ns > u64::MAX { u64::MAX } else { (now + delay_ns) as u64 });
    let entry = WheelEntry { expiry_ns: expiry, callback, id };
    let l = level_for((expiry - now) as u64, 0);
    &&& after.now() == now
    &&& if l < 4 {
        &&& after.levels() == before.levels().update(l, before.levels()[l].update(slot_of(expiry, l), entry))
        &&& after.spill() == before.spill()
        &&& after.spill_count() == before.spill_count()
        &&& after.active() == before.active() + 1
    } else if before.spill_count() < 8 {
        &&& after.levels() == before.levels()
        &&& after.spill() == before.spill().update(before.spill_count() as int, entry)
        &&& after.spill_count() == before.spill_count() + 1
        &&& after.active() == before.active() + 1
    } else {
        &&& after.levels() == before.levels()
        &&& after.spill() == before.spill()
        &&& after.spill_count() == before.spill_count()
        &&& after.active() == before.active()
    }
}

/// The tokens an expiry pass at `now` fires: those of the levels, then
/// those of the overflow.
pub open spec fn fired_all(w: TimerWheel, now: u64) -> Seq<u64> {
    fired_levels(w.levels(), now, 0) + fired_from(w.spill(), now, 0)
}

/// `after` is `before` after an expiry pass at `now`: every expired entry
/// of the levels and of the overflow is emptied.
pub open spec fn expired(before: TimerWheel, after: TimerWheel, now: u64) -> bool {
    &&& after.now() == now
    &&& after.levels() == Seq::new(4, |l: int| expired_level(before.levels()[l], now))
    &&& after.spill() == expired_level(before.spill(), now)
    &&& after.spill_count() == before.spill_count() - fired_from(before.spill(), now, 0).len()
    &&& after.active() == before.active() - fired_all(before, now).len()
}

/// Cancelling timer `id`: the null identifier and an unknown one are
/// invalid.
pub open spec fn cancel_outcome(before: TimerWheel, id: TimerId) -> Result<(), TimerError> {
    if id.0 != 0 && (find_level(before.levels(), id, 0) < 4 || find_id(before.spill(), id, 0, 8) < 8) {
        Ok(())
    } else {
        Err(TimerError::InvalidId)
    }
}

/// `after` is `before` with timer `id` cancelled: its first entry, in the
/// levels or else in the overflow, emptied; nothing changes for the null
/// or an unknown identifier.
pub open spec fn cancelled(before: TimerWheel, after: TimerWheel, id: TimerId) -> bool {
    let l = find_level(before.levels(), id, 0);
    let o = find_id(before.spill(), id, 0, 8);
    &&& after.now() == before.now()
    &&& if id.0 != 0 && l < 4 {
        let k = find_id(before.levels()[l], id, 0, 8);
        &&& after.levels() == before.levels().update(l, before.levels()[l].update(k, empty_entry()))
        &&& after.spill() == before.spill()
        &&& after.spill_count() == before.spill_count()
        &&& after.active() == before.active() - 1
    } else if id.0 != 0 && o < 8 {
        &&& after.levels() == before.levels()
        &&& after.spill() == before.spill().update(o, empty_entry())
        &&& after.spill_count() == before.spill_count() - 1
        &&& after.active() == before.active() - 1
    } else {
        after == before
    }
}

impl Default for TimerWheel {
    fn default() -> (w: Self)
        ensures
            w.wf(),
            w.now() == 0,
            w.active() == 0,
            w.spill_count() == 0,
    {
        TimerWheel::new()
    }
}

/// Nanoseconds per slot of `level`.
fn level_granularity(level: usize) -> (g: u64)
    ensures
        g == granularity(level as int),
        g > 0,
{
    if level == 0 {
        1_000_000
    } else if level == 1 {
        8_000_000
    } else if level == 2 {
        64_000_000
    } else if level == 3 {
        512_000_000
    } else {
        1_000_000_000
    }
}

/// Eight empty entries.
fn empty_slots() -> (v: Vec<WheelEntry>)
    ensures
        v@.len() == 8,
        forall|k: int| 0 <= k < 8 ==> #[trigger] v@[k] == empty_entry(),
{
    let mut v: Vec<WheelEntry> = Vec::new();
    while v.len() < 8
        invariant
            v@.len() <= 8,
            forall|k: int| 0 <= k < v@.len() ==> #[trigger] v@[k] == empty_entry(),
        decreases 8 - v@.len(),
    {
        v.push(WheelEntry::empty());
    }
    v
}

/// The index of the first of eight entries holding `id`.
fn find_entry(es: &Vec<WheelEntry>, id: TimerId) -> (r: Option<usize>)
    requires
        es@.len() == 8,
        id.0 != 0,
    ensures
        match r {
            Some(k) => k < 8 && k == find_id(es@, id, 0, 8) && es@[k as int].id == id,
            None => find_id(es@, id, 0, 8) == 8,
        },
{
    let mut k: usize = 0;
    while k < 8
        invariant
            es@.len() == 8,
            k <= 8,
            find_id(es@, id, 0, 8) == find_id(es@, id, k as int, 8),
        decreases 8 - k,
    {
        if es[k].id == id {
            return Some(k);
        }
        k += 1;
    }
    None
}

proof fn lemma_live_empty(es: Seq<WheelEntry>, n: nat)
    requires
        n <= es.len(),
        forall|k: int| 0 <= k < es.len() ==> #[trigger] es[k] == empty_entry(),
    ensures
        live(es, n) == 0,
    decreases n,
{
    if n > 0 {
        lemma_live_empty(es, (n - 1) as nat);
    }
}

proof fn lemma_live_levels_zero(ws: Seq<Seq<WheelEntry>>, n: nat)
    requires
        n <= ws.len(),
        forall|l: int| 0 <= l < n ==> live(#[trigger] ws[l], 8) == 0,
    ensures
        live_levels(ws, n) == 0,
    decreases n,
{
    if n > 0 {
        lemma_live_levels_zero(ws, (n - 1) as nat);
    }
}

/// The level chosen from `level` on is no lower than `level`.
proof fn lemma_level_for_from(delta: u64, level: int)
    requires
        0 <= level <= 4,
    ensures
        level <= level_for(delta, level) <= 4,
    decreases 4 - level,
{
    if level < 4 && delta >= level_range(level) {
        lemma_level_for_from(delta, level + 1);
    }
}

/// An expiring entry at or after the start slot is among the tokens fired
/// from that slot on.
proof fn lemma_fired_from_has(es: Seq<WheelEntry>, now: u64, j: int, k: int)
    requires
        0 <= j <= k < 8,
        expires(es[k], now),
    ensures
        fired_from(es, now, j).contains(es[k].callback),
    decreases k - j,
{
    let head = if expires(es[j], now) { seq![es[j].callback] } else { seq![] };
    let rest = fired_from(es, now, j + 1);
    assert(fired_from(es, now, j) == head + rest);
    if j == k {
        assert((head + rest)[0] == es[k].callback);
    } else {
        lemma_fired_from_has(es, now, j + 1, k);
        let i = choose|i: int| 0 <= i < rest.len() && rest[i] == es[k].callback;
        assert((head + rest)[head.len() + i] == es[k].callback);
    }
}

/// A token fired from one level at `now` is among those fired from the
/// levels from `m` on.
proof fn lemma_fired_levels_has(ws: Seq<Seq<WheelEntry>>, now: u64, m: int, l: int, x: u64)
    requires
        0 <= m <= l < 4,
        fired_from(ws[l], now, 0).contains(x),
    ensures
        fired_levels(ws, now, m).contains(x),
    decreases l - m,
{
    let head = fired_from(ws[m], now, 0);
    let rest = fired_levels(ws, now, m + 1);
    assert(fired_levels(ws, now, m) == head + rest);
    if m == l {
        let i = choose|i: int| 0 <= i < head.len() && head[i] == x;
        assert((head + rest)[i] == x);
    } else {
        lemma_fired_levels_has(ws, now, m + 1, l, x);
        let i = choose|i: int| 0 <= i < rest.len() && rest[i] == x;
        assert((head + rest)[head.len() + i] == x);
    }
}

/// A timer that the wheel keeps (in a level, or in a free overflow entry)
/// fires at any later expiry pass at or after its expiry time: its token
/// is among those the pass gives.
pub proof fn lemma_schedule_then_fire(before: TimerWheel, after: TimerWheel, delay_ns: u64, callback: u64, id: TimerId, t: u64)
    requires
        before.wf(),
        id.0 != 0,
        scheduled(before, after, delay_ns, callback, id),
        ({
            let now = before.now();
            let expiry = (if now + delay_ns > u64::MAX { u64::MAX } else { (now + delay_ns) as u64 });
            let l = level_for((expiry - now) as u64, 0);
            &&& l < 4 || before.spill_count() < 8
            &&& expiry <= t
        }),
    ensures
        fired_all(after, t).contains(callback),
{
    let now = before.now();
    let expiry = (if now + delay_ns > u64::MAX { u64::MAX } else { (now + delay_ns) as u64 });
    let l = level_for((expiry - now) as u64, 0);
    let entry = WheelEntry { expiry_ns: expiry, callback, id };
    lemma_level_for_from((expiry - now) as u64, 0);
    let lv = fired_levels(after.levels(), t, 0);
    let sp = fired_from(after.spill(), t, 0);
    if l < 4 {
        let k = slot_of(expiry, l);
        assert(0 <= k < 8);
        assert(after.levels()[l][k] == entry);
        lemma_fired_from_has(after.levels()[l], t, 0, k);
        lemma_fired_levels_has(after.levels(), t, 0, l, callback);
        let i = choose|i: int| 0 <= i < lv.len() && lv[i] == callback;
        assert((lv + sp)[i] == callback);
    } else {
        let k = before.spill_count() as int;
        assert(after.spill()[k] == entry);
        lemma_fired_from_has(after.spill(), t, 0, k);
        let i = choose|i: int| 0 <= i < sp.len() && sp[i] == callback;
        assert((lv + sp)[lv.len() + i] == callback);
    }
}

/// Once expired at `now`, no entry of the levels or of the overflow is
/// still due by `now`: a second pass at the same time fires nothing.
pub proof fn lemma_expire_idempotent(ws: Seq<Seq<WheelEntry>>, spill: Seq<WheelEntry>, now: u64)
    requires
        ws.len() == 4,
        forall|l: int| 0 <= l < 4 ==> (#[trigger] ws[l]).len() == 8,
        spill.len() == 8,
    ensures
        fired_levels(Seq::new(4, |l: int| expired_level(ws[l], now)), now, 0).len() == 0,
        fired_from(expired_level(spill, now), now, 0).len() == 0,
{
    lemma_fired_none(expired_level(spill, now), now, 0, 0);
    let after = Seq::new(4, |l: int| expired_level(ws[l], now));
    assert forall|l: int| 0 <= l < 4 implies #[trigger] fired_from(after[l], now, 0).len() == 0 by {
        lemma_fired_none(after[l], now, 0, 0);
    }
    lemma_fired_levels_none(after, now, 0);
}

proof fn lemma_fired_none(es: Seq<WheelEntry>, now: u64, slot: int, k: int)
    requires
        es.len() == 8,
        0 <= slot <= k,
        forall|j: int| slot <= j < 8 ==> !expires(#[trigger] es[j], now),
    ensures
        fired_from(es, now, k).len() == 0,
    decreases 8 - k,
{
    if k < 8 {
        lemma_fired_none(es, now, slot, k + 1);
    }
}

proof fn lemma_fired_levels_none(ws: Seq<Seq<WheelEntry>>, now: u64, level: int)
    requires
        0 <= level,
        forall|l: int| 0 <= l < 4 ==> #[trigger] fired_from(ws[l], now, 0).len() == 0,
    ensures
        fired_levels(ws, now, level).len() == 0,
    decreases 4 - level,
{
    if level < 4 {
        lemma_fired_levels_none(ws, now, level + 1);
    }
}

} // verus!
