//! Asynchronous notifications: bit sets a process can signal and wait on.
//!
//! A notification keeps four 64-bit words.  Signalling or clearing a mask
//! applies it to every word (the mask is rotated by a whole number of
//! words, which leaves it unchanged); single-bit operations address word
//! `bit / 64`, bit `bit % 64`.

use super::endpoint::ProcessId;
use crate::ids::IdCounter;
use crate::keyed::{Keyed, KeyedMap};
use vstd::prelude::*;

verus! {

/// Notification identifier.
#[derive(Debug, Clone, Copy, PartialEq, Eq, Structural, Hash, PartialOrd, Ord)]
pub struct NotificationId(pub u64);

impl NotificationId {
    /// A fresh identifier drawn from `ids`.
    pub fn new(ids: &mut IdCounter) -> (id: Self)
        ensures
            id.0 == old(ids).peek(),
            final(ids).peek() == (if old(ids).peek() == u64::MAX { 0 } else { (old(ids).peek() + 1) as u64 }),
    {
        NotificationId(ids.next_id())
    }

    /// The raw identifier.
    pub fn as_u64(self) -> (r: u64)
        ensures
            r == self.0,
    {
        self.0
    }
}

/// Named notification bits.
#[derive(Debug, Clone, Copy, PartialEq, Eq, Structural)]
pub struct NotificationBits(pub u64);

impl NotificationBits {
    /// Bit 0.
    #[allow(non_snake_case)]
    #[verifier::allow_in_spec]
    pub fn BIT_0() -> Self
        returns
            NotificationBits(1),
    {
        NotificationBits(1)
    }

    /// Bit 1.
    #[allow(non_snake_case)]
    #[verifier::allow_in_spec]
    pub fn BIT_1() -> Self
        returns
            NotificationBits(2),
    {
        NotificationBits(2)
    }

    /// Bit 2.
    #[allow(non_snake_case)]
    #[verifier::allow_in_spec]
    pub fn BIT_2() -> Self
        returns
            NotificationBits(4),
    {
        NotificationBits(4)
    }

    /// Bit 3.
    #[allow(non_snake_case)]
    #[verifier::allow_in_spec]
    pub fn BIT_3() -> Self
        returns
            NotificationBits(8),
    {
        NotificationBits(8)
    }

    /// Every bit.
    #[allow(non_snake_case)]
    #[verifier::allow_in_spec]
    pub fn ALL() -> Self
        returns
            NotificationBits(u64::MAX),
    {
        NotificationBits(u64::MAX)
    }

    /// The raw bits.
    pub fn bits(self) -> (b: u64)
        ensures
            b == self.0,
    {
        self.0
    }
}

/// Waiting errors.
#[derive(Debug, Clone, Copy, PartialEq, Eq, Structural)]
pub enum WaitError {
    Timeout,
    Cancelled,
    InvalidNotification,
}

/// The bits of `mask` set in any of the four words.
pub open spec fn pending_bits(slots: Seq<u64>, mask: u64) -> u64 {
    (slots[0] & mask) | (slots[1] & mask) | (slots[2] & mask) | (slots[3] & mask)
}

/// Bit `bit` is set in word `bit / 64`.
pub open spec fn bit_set(slots: Seq<u64>, bit: u8) -> bool {
    slots[(bit / 64) as int] & (1u64 << (bit % 64) as u64) != 0
}

/// A notification object.
#[derive(Debug, Clone, Copy)]
pub struct Notification {
    pub id: NotificationId,
    pub process: ProcessId,
    pub slots: [u64; 4],
}

impl Notification {
    /// A notification with no bit set, with a fresh identifier.
    pub fn new(ids: &mut IdCounter, process: ProcessId) -> (n: Self)
        ensures
            n.id.0 == old(ids).peek(),
            n.process == process,
            n.slots@ == seq![0u64, 0u64, 0u64, 0u64],
            final(ids).peek() == (if old(ids).peek() == u64::MAX { 0 } else { (old(ids).peek() + 1) as u64 }),
    {
        let n = Notification { id: NotificationId::new(ids), process, slots: [0u64; 4] };
        assert(n.slots@ =~= seq![0u64, 0u64, 0u64, 0u64]);
        n
    }

    /// Set the bits of `bits` in every word.
    pub fn signal(&mut self, bits: u64)
        ensures
            final(self).slots@ == old(self).slots@.map_values(|w: u64| w | bits),
            final(self).id == old(self).id,
            final(self).process == old(self).process,
    {
        let mut i: usize = 0;
        while i < 4
            invariant
                i <= 4,
                self.slots@.len() == 4,
                forall|j: int| 0 <= j < i ==> self.slots@[j] == old(self).slots@[j] | bits,
                forall|j: int| i <= j < 4 ==> self.slots@[j] == old(self).slots@[j],
                self.id == old(self).id,
                self.process == old(self).process,
            decreases 4 - i,
        {
            self.slots[i] = self.slots[i] | bits;
            i = i + 1;
        }
        assert(self.slots@ =~= old(self).slots@.map_values(|w: u64| w | bits));
    }

    /// Set bit `bit % 64` of word `bit / 64`.
    pub fn signal_bit(&mut self, bit: u8)
        ensures
            final(self).slots@ == old(self).slots@.update((bit / 64) as int, old(self).slots@[(bit / 64) as int] | (1u64 << (bit % 64) as u64)),
            final(self).id == old(self).id,
            final(self).process == old(self).process,
    {
        let slot_idx = (bit / 64) as usize;
        let bit_idx = bit % 64;
        self.slots[slot_idx] = self.slots[slot_idx] | (1u64 << bit_idx);
        assert(self.slots@ =~= old(self).slots@.update((bit / 64) as int, old(self).slots@[(bit / 64) as int] | (1u64 << (bit % 64) as u64)));
    }

    /// Clear the bits of `mask` in every word.
    pub fn clear(&mut self, mask: u64)
        ensures
            final(self).slots@ == old(self).slots@.map_values(|w: u64| w & !mask),
            final(self).id == old(self).id,
            final(self).process == old(self).process,
    {
        let mut i: usize = 0;
        while i < 4
            invariant
                i <= 4,
                self.slots@.len() == 4,
                forall|j: int| 0 <= j < i ==> self.slots@[j] == old(self).slots@[j] & !mask,
                forall|j: int| i <= j < 4 ==> self.slots@[j] == old(self).slots@[j],
                self.id == old(self).id,
                self.process == old(self).process,
            decreases 4 - i,
        {
            self.slots[i] = self.slots[i] & !mask;
            i = i + 1;
        }
        assert(self.slots@ =~= old(self).slots@.map_values(|w: u64| w & !mask));
    }

    /// Clear bit `bit % 64` of word `bit / 64`.
    pub fn clear_bit(&mut self, bit: u8)
        ensures
            final(self).slots@ == old(self).slots@.update((bit / 64) as int, old(self).slots@[(bit / 64) as int] & !(1u64 << (bit % 64) as u64)),
            final(self).id == old(self).id,
            final(self).process == old(self).process,
    {
        let slot_idx = (bit / 64) as usize;
        let bit_idx = bit % 64;
        self.slots[slot_idx] = self.slots[slot_idx] & !(1u64 << bit_idx);
        assert(self.slots@ =~= old(self).slots@.update((bit / 64) as int, old(self).slots@[(bit / 64) as int] & !(1u64 << (bit % 64) as u64)));
    }

    /// The bits of `mask` set in any word.
    pub fn poll(&self, mask: u64) -> (r: u64)
        ensures
            r == pending_bits(self.slots@, mask),
    {
        (self.slots[0] & mask) | (self.slots[1] & mask) | (self.slots[2] & mask) | (self.slots[3] & mask)
    }

    /// Consume the pending bits of `mask`: when some are set, clear them
    /// (in every word) and return them; otherwise `None`.
    pub fn try_wait(&mut self, mask: u64) -> (r: Option<u64>)
        ensures
            final(self).id == old(self).id,
            final(self).process == old(self).process,
            pending_bits(old(self).slots@, mask) == 0 ==> r is None && final(self).slots@ == old(self).slots@,
            pending_bits(old(self).slots@, mask) != 0 ==> r == Some(pending_bits(old(self).slots@, mask))
                && final(self).slots@ == old(self).slots@.map_values(|w: u64| w & !pending_bits(old(self).slots@, mask)),
    {
        let signaled = self.poll(mask);
        if signaled != 0 {
            self.clear(signaled);
            Some(signaled)
        } else {
            None
        }
    }

    /// Bit `bit % 64` of word `bit / 64` is set.
    pub fn is_signaled(&self, bit: u8) -> (b: bool)
        ensures
            b == bit_set(self.slots@, bit),
    {
        let slot_idx = (bit / 64) as usize;
        let bit_idx = bit % 64;
        (self.slots[slot_idx] & (1u64 << bit_idx)) != 0
    }

    /// Some bit is set in some word.
    pub fn any_signaled(&self) -> (b: bool)
        ensures
            b == (exists|i: int| 0 <= i < 4 && self.slots@[i] != 0),
    {
        self.slots[0] != 0 || self.slots[1] != 0 || self.slots[2] != 0 || self.slots[3] != 0
    }
}

proof fn word_facts(w: u64, bits: u64, b: u64)
    by (bit_vector)
    requires
        b < 64,
    ensures
        bits & (1u64 << b) != 0 ==> (w | bits) & (1u64 << b) != 0,
        bits & (1u64 << b) == 0 ==> ((w | bits) & (1u64 << b) != 0) == (w & (1u64 << b) != 0),
        bits & (1u64 << b) != 0 ==> (w & !bits) & (1u64 << b) == 0,
        bits & (1u64 << b) == 0 ==> ((w & !bits) & (1u64 << b) != 0) == (w & (1u64 << b) != 0),
        (w & !(w & bits)) & bits == 0,
{
}

/// Signalling sets exactly the signalled bits and keeps the others;
/// clearing removes exactly the cleared bits and keeps the others.
pub proof fn lemma_signal_clear_bits(before: Seq<u64>, bits: u64, bit: u8)
    requires
        before.len() == 4,
    ensures
        bits & (1u64 << (bit % 64) as u64) != 0 ==> bit_set(before.map_values(|w: u64| w | bits), bit),
        bits & (1u64 << (bit % 64) as u64) == 0 ==> bit_set(before.map_values(|w: u64| w | bits), bit) == bit_set(before, bit),
        bits & (1u64 << (bit % 64) as u64) != 0 ==> !bit_set(before.map_values(|w: u64| w & !bits), bit),
        bits & (1u64 << (bit % 64) as u64) == 0 ==> bit_set(before.map_values(|w: u64| w & !bits), bit) == bit_set(before, bit),
{
    let w = before[(bit / 64) as int];
    word_facts(w, bits, (bit % 64) as u64);
}

/// Consuming with `try_wait` leaves none of the consumed bits pending.
pub proof fn lemma_try_wait_consumes(before: Seq<u64>, mask: u64)
    requires
        before.len() == 4,
    ensures
        pending_bits(before.map_values(|w: u64| w & !pending_bits(before, mask)), mask)
            & pending_bits(before, mask) == 0,
{
    let p = pending_bits(before, mask);
    let after = before.map_values(|w: u64| w & !p);
    consume_facts(before[0], before[1], before[2], before[3], mask);
}

proof fn consume_facts(a: u64, b: u64, c: u64, d: u64, m: u64)
    by (bit_vector)
    ensures
        ({
            let p = (a & m) | (b & m) | (c & m) | (d & m);
            (((a & !p) & m) | ((b & !p) & m) | ((c & !p) & m) | ((d & !p) & m)) & p == 0
        }),
{
}

/// A binding of a notification bit into a wait set.
#[derive(Debug, Clone, Copy, PartialEq, Eq, Structural)]
pub struct NotificationBinding {
    pub notification_id: NotificationId,
    pub bit: u8,
}

impl Keyed for Notification {
    open spec fn key_of(&self) -> u64 {
        self.id.0
    }

    fn key(&self) -> (k: u64) {
        self.id.0
    }
}

/// The table of notifications.
pub struct NotificationManager {
    notifications: KeyedMap<Notification>,
}

impl NotificationManager {
    /// The notifications, by identifier.
    pub closed spec fn view(&self) -> Map<u64, Notification> {
        self.notifications@
    }

    /// Number of notifications.
    pub closed spec fn count(&self) -> nat {
        self.notifications.count()
    }

    /// The manager's invariant.
    pub closed spec fn wf(&self) -> bool {
        self.notifications.wf()
    }

    /// An empty manager.
    pub fn new() -> (m: Self)
        ensures
            m.wf(),
            m@ == Map::<u64, Notification>::empty(),
            m.count() == 0,
    {
        NotificationManager { notifications: KeyedMap::new() }
    }

    /// Create and register a notification for a process; returns its identifier.
    pub fn create_notification(&mut self, ids: &mut IdCounter, process: ProcessId) -> (id: NotificationId)
        requires
            old(self).wf(),
        ensures
            final(self).wf(),
            id.0 == old(ids).peek(),
            final(self)@ == old(self)@.insert(id.0, Notification {
                id,
                process,
                slots: final(self)@[id.0].slots,
            }),
            final(self)@[id.0].slots@ == seq![0u64, 0u64, 0u64, 0u64],
            final(self).count() == old(self).count() + (if old(self)@.contains_key(id.0) { 0int } else { 1int }),
            final(ids).peek() == (if old(ids).peek() == u64::MAX { 0 } else { (old(ids).peek() + 1) as u64 }),
    {
        let n = Notification::new(ids, process);
        let id = n.id;
        self.notifications.insert(n);
        id
    }

    /// The notification with the given identifier.
    pub fn get_notification(&self, id: NotificationId) -> (r: Option<&Notification>)
        requires
            self.wf(),
        ensures
            match r {
                Some(n) => self@.contains_key(id.0) && *n == self@[id.0],
                None => !self@.contains_key(id.0),
            },
    {
        self.notifications.get(id.0)
    }

    /// Drop a notification; absent identifiers are ignored.
    pub fn destroy_notification(&mut self, id: NotificationId) -> (r: Result<(), WaitError>)
        requires
            old(self).wf(),
        ensures
            final(self).wf(),
            r == Ok::<(), WaitError>(()),
            final(self)@ == old(self)@.remove(id.0),
            final(self).count() == old(self).count() - (if old(self)@.contains_key(id.0) { 1int } else { 0int }),
    {
        let _ = self.notifications.remove(id.0);
        Ok(())
    }

    /// Signal the bits of `bits` on a notification.
    pub fn signal(&mut self, id: NotificationId, bits: u64) -> (r: Result<(), WaitError>)
        requires
            old(self).wf(),
        ensures
            final(self).wf(),
            !old(self)@.contains_key(id.0) ==> r == Err::<(), WaitError>(WaitError::InvalidNotification) && final(self)@ == old(self)@,
            old(self)@.contains_key(id.0) ==> r == Ok::<(), WaitError>(()) && final(self)@ == old(self)@.insert(id.0, Notification {
                slots: final(self)@[id.0].slots,
                ..old(self)@[id.0]
            }) && final(self)@[id.0].slots@ == old(self)@[id.0].slots@.map_values(|w: u64| w | bits),
    {
        match self.notifications.remove(id.0) {
            Some(n) => {
                let mut n = n;
                n.signal(bits);
                self.notifications.insert(n);
                proof {
                    assert(self@ =~= old(self)@.insert(id.0, Notification { slots: self@[id.0].slots, ..old(self)@[id.0] }));
                }
                Ok(())
            },
            None => {
                proof {
                    assert(self@ =~= old(self)@);
                }
                Err(WaitError::InvalidNotification)
            },
        }
    }

    /// Signal one bit on a notification.
    pub fn signal_bit(&mut self, id: NotificationId, bit: u8) -> (r: Result<(), WaitError>)
        requires
            old(self).wf(),
        ensures
            final(self).wf(),
            !old(self)@.contains_key(id.0) ==> r == Err::<(), WaitError>(WaitError::InvalidNotification) && final(self)@ == old(self)@,
            old(self)@.contains_key(id.0) ==> r == Ok::<(), WaitError>(()) && final(self)@ == old(self)@.insert(id.0, Notification {
                slots: final(self)@[id.0].slots,
                ..old(self)@[id.0]
            }) && final(self)@[id.0].slots@ == old(self)@[id.0].slots@.update((bit / 64) as int, old(self)@[id.0].slots@[(bit / 64) as int] | (1u64 << (bit % 64) as u64)),
    {
        match self.notifications.remove(id.0) {
            Some(n) => {
                let mut n = n;
                n.signal_bit(bit);
                self.notifications.insert(n);
                proof {
                    assert(self@ =~= old(self)@.insert(id.0, Notification { slots: self@[id.0].slots, ..old(self)@[id.0] }));
                }
                Ok(())
            },
            None => {
                proof {
                    assert(self@ =~= old(self)@);
                }
                Err(WaitError::InvalidNotification)
            },
        }
    }

    /// Consume pending bits of `mask` on a notification (see `Notification::try_wait`);
    /// `None` when the notification does not exist.
    pub fn try_wait(&mut self, id: NotificationId, mask: u64) -> (r: Option<Option<u64>>)
        requires
            old(self).wf(),
        ensures
            final(self).wf(),
            final(self)@.dom() == old(self)@.dom(),
            !old(self)@.contains_key(id.0) ==> r is None && final(self)@ == old(self)@,
            old(self)@.contains_key(id.0) ==> {
                let p = pending_bits(old(self)@[id.0].slots@, mask);
                &&& r == Some(if p == 0 { None::<u64> } else { Some(p) })
                &&& final(self)@[id.0].slots@ == (if p == 0 { old(self)@[id.0].slots@ } else { old(self)@[id.0].slots@.map_values(|w: u64| w & !p) })
                &&& final(self)@[id.0].id == old(self)@[id.0].id
                &&& final(self)@[id.0].process == old(self)@[id.0].process
                &&& forall|k: u64| k != id.0 && #[trigger] old(self)@.contains_key(k) ==> final(self)@[k] == old(self)@[k]
            },
    {
        match self.notifications.remove(id.0) {
            Some(n) => {
                let mut n = n;
                let res = n.try_wait(mask);
                self.notifications.insert(n);
                proof {
                    assert(self@.dom() =~= old(self)@.dom());
                }
                Some(res)
            },
            None => {
                proof {
                    assert(self@ =~= old(self)@);
                }
                None
            },
        }
    }

    /// Number of notifications.
    pub fn notification_count(&self) -> (n: usize)
        ensures
            n == self.count(),
    {
        self.notifications.len()
    }
}

/// A set of notification bits to wait on.
#[derive(Debug)]
pub struct WaitSet {
    pub notifications: Vec<NotificationBinding>,
}

impl WaitSet {
    /// An empty wait set.
    pub fn new() -> (w: Self)
        ensures
            w.notifications@ == Seq::<NotificationBinding>::empty(),
    {
        WaitSet { notifications: Vec::new() }
    }

    /// Add a binding.
    pub fn add(&mut self, notification_id: NotificationId, bit: u8)
        ensures
            final(self).notifications@ == old(self).notifications@.push(NotificationBinding { notification_id, bit }),
    {
        self.notifications.push(NotificationBinding { notification_id, bit });
    }

    /// Drop every binding of a notification, keeping the others in order.
    pub fn remove(&mut self, notification_id: NotificationId)
        ensures
            final(self).notifications@ == old(self).notifications@.filter(|b: NotificationBinding| b.notification_id != notification_id),
    {
        let ghost pred = |b: NotificationBinding| b.notification_id != notification_id;
        let mut kept: Vec<NotificationBinding> = Vec::new();
        let mut i: usize = 0;
        while i < self.notifications.len()
            invariant
                i <= self.notifications@.len(),
                self.notifications@ == old(self).notifications@,
                kept@ == self.notifications@.take(i as int).filter(pred),
                forall|b: NotificationBinding| #[trigger] pred(b) == (b.notification_id != notification_id),
            decreases self.notifications@.len() - i,
        {
            let b = self.notifications[i];
            proof {
                reveal(Seq::filter);
                assert(self.notifications@.take(i + 1).drop_last() =~= self.notifications@.take(i as int));
            }
            if b.notification_id != notification_id {
                kept.push(b);
            }
            i = i + 1;
        }
        proof {
            assert(self.notifications@.take(i as int) =~= self.notifications@);
        }
        self.notifications = kept;
    }
}

} // verus!
