//! Per-process capability storage, indexed by slot.
//!
//! Slots are dense small integers: a table holds one entry per slot ever
//! allocated (`next_slot` of them), empty where a capability was removed.
//! Removed slots are kept on a free list and reused last-in, first-out.

use super::{rights_contain, CapError, CapRights, Capability, CapabilityId, ObjectType};
use crate::ids::IdCounter;
use vstd::prelude::*;

verus! {

/// Maximum number of capabilities per process.
pub const MAX_CAPABILITIES: usize = 1024;

/// Slot index in a process's capability table.
#[derive(Debug, Clone, Copy, PartialEq, Eq, Structural, Hash, PartialOrd, Ord)]
pub struct SlotId(pub u32);

impl SlotId {
    /// The slot with the given index.
    pub fn new(id: u32) -> (s: Self)
        ensures
            s.0 == id,
    {
        SlotId(id)
    }

    /// The raw index.
    pub fn as_u32(self) -> (r: u32)
        ensures
            r == self.0,
    {
        self.0
    }
}

impl Default for SlotId {
    fn default() -> (s: Self)
        ensures
            s.0 == 0,
    {
        SlotId(0)
    }
}

/// The capability is for objects of type `object_type`.
pub open spec fn of_type(object_type: ObjectType) -> spec_fn(Capability) -> bool {
    |c: Capability| c.object_type == object_type
}

/// The capability is for object ID `object_id`.
pub open spec fn of_object(object_id: u64) -> spec_fn(Capability) -> bool {
    |c: Capability| c.object_id == object_id
}

/// The capability names the object `(object_type, object_id)`.
pub open spec fn names_object(object_id: u64, object_type: ObjectType) -> spec_fn(Capability) -> bool {
    |c: Capability| c.object_id == object_id && c.object_type == object_type
}

/// Number of occupied entries in the first `n` slots.
pub open spec fn occupied_upto(slots: Seq<Option<Capability>>, n: int) -> nat
    decreases n,
{
    if n <= 0 {
        0
    } else {
        occupied_upto(slots, n - 1) + if slots[n - 1] is Some { 1nat } else { 0nat }
    }
}

/// The entries of the first `n` slots that satisfy `pred`, in slot order.
pub open spec fn matching_upto(
    slots: Seq<Option<Capability>>,
    n: int,
    pred: spec_fn(Capability) -> bool,
) -> Seq<(SlotId, Capability)>
    decreases n,
{
    if n <= 0 {
        Seq::empty()
    } else {
        let prev = matching_upto(slots, n - 1, pred);
        match slots[n - 1] {
            Some(c) => if pred(c) {
                prev.push((SlotId((n - 1) as u32), c))
            } else {
                prev
            },
            None => prev,
        }
    }
}

/// The occupied slot indices among the first `n`, in increasing order.
pub open spec fn occupied_slots_upto(slots: Seq<Option<Capability>>, n: int) -> Seq<SlotId>
    decreases n,
{
    if n <= 0 {
        Seq::empty()
    } else {
        let prev = occupied_slots_upto(slots, n - 1);
        if slots[n - 1] is Some {
            prev.push(SlotId((n - 1) as u32))
        } else {
            prev
        }
    }
}

proof fn lemma_occupied_update(slots: Seq<Option<Capability>>, n: int, i: int, v: Option<Capability>)
    requires
        0 <= i < n <= slots.len(),
    ensures
        occupied_upto(slots.update(i, v), n) == occupied_upto(slots, n)
            - (if slots[i] is Some { 1int } else { 0int }) + (if v is Some { 1int } else { 0int }),
    decreases n,
{
    if n - 1 > i {
        lemma_occupied_update(slots, n - 1, i, v);
    } else {
        lemma_occupied_prefix_same(slots, slots.update(i, v), i);
    }
}

proof fn lemma_occupied_prefix_same(a: Seq<Option<Capability>>, b: Seq<Option<Capability>>, n: int)
    requires
        0 <= n <= a.len(),
        n <= b.len(),
        forall|j: int| 0 <= j < n ==> a[j] == b[j],
    ensures
        occupied_upto(a, n) == occupied_upto(b, n),
    decreases n,
{
    if n > 0 {
        lemma_occupied_prefix_same(a, b, n - 1);
    }
}

/// The occupied slots among the first `n`.
spec fn occupied_set(slots: Seq<Option<Capability>>, n: int) -> Set<u32> {
    Set::new(|k: u32| (k as int) < n && (k as int) < slots.len() && slots[k as int] is Some)
}

proof fn lemma_occupied_set(slots: Seq<Option<Capability>>, n: int)
    requires
        0 <= n <= slots.len(),
        slots.len() <= MAX_CAPABILITIES,
    ensures
        occupied_set(slots, n).finite(),
        occupied_set(slots, n).len() == occupied_upto(slots, n),
    decreases n,
{
    if n == 0 {
        assert(occupied_set(slots, 0) =~= Set::<u32>::empty());
    } else {
        lemma_occupied_set(slots, n - 1);
        let k = (n - 1) as u32;
        if slots[n - 1] is Some {
            assert(occupied_set(slots, n) =~= occupied_set(slots, n - 1).insert(k));
        } else {
            assert(occupied_set(slots, n) =~= occupied_set(slots, n - 1));
        }
    }
}

proof fn lemma_occupied_full(slots: Seq<Option<Capability>>, n: int)
    requires
        0 <= n <= slots.len(),
        forall|k: int| 0 <= k < n ==> #[trigger] slots[k] is Some,
    ensures
        occupied_upto(slots, n) == n,
    decreases n,
{
    if n > 0 {
        lemma_occupied_full(slots, n - 1);
    }
}

proof fn lemma_occupied_all(slots: Seq<Option<Capability>>, n: int)
    requires
        0 <= n <= slots.len(),
        occupied_upto(slots, n) >= n,
    ensures
        forall|k: int| 0 <= k < n ==> #[trigger] slots[k] is Some,
    decreases n,
{
    if n > 0 {
        lemma_occupied_le(slots, n - 1);
        lemma_occupied_all(slots, n - 1);
    }
}

proof fn lemma_occupied_le(slots: Seq<Option<Capability>>, n: int)
    requires
        0 <= n,
    ensures
        occupied_upto(slots, n) <= n,
    decreases n,
{
    if n > 0 {
        lemma_occupied_le(slots, n - 1);
    }
}

/// Per-process capability table.
pub struct CapabilityTable {
    /// One entry per allocated slot, empty where the capability was removed.
    slots: Vec<Option<Capability>>,
    /// Removed slots, reused from the end.
    free_slots: Vec<u32>,
    /// Next never-used slot index (equals the number of entries).
    next_slot: u32,
    /// Owner process ID.
    owner: u64,
}

impl CapabilityTable {
    /// The table as a map from slot index to capability.
    pub closed spec fn view(&self) -> Map<u32, Capability> {
        Map::new(
            |k: u32| (k as int) < self.slots@.len() && self.slots@[k as int] is Some,
            |k: u32| self.slots@[k as int]->Some_0,
        )
    }

    /// The slot entries, in slot order.
    pub closed spec fn entries(&self) -> Seq<Option<Capability>> {
        self.slots@
    }

    /// The free list; its last element is reused first.
    pub closed spec fn free_list(&self) -> Seq<u32> {
        self.free_slots@
    }

    /// The next never-used slot index.
    pub closed spec fn next_fresh(&self) -> u32 {
        self.next_slot
    }

    /// The owner process.
    pub closed spec fn owner_pid(&self) -> u64 {
        self.owner
    }

    /// The table's internal invariant.
    pub closed spec fn wf(&self) -> bool {
        &&& self.slots@.len() == self.next_slot as int
        &&& self.next_slot as int <= MAX_CAPABILITIES
        &&& forall|i: int| 0 <= i < self.free_slots@.len() ==> {
            &&& (self.free_slots@[i] as int) < self.slots@.len()
            &&& self.slots@[self.free_slots@[i] as int] is None
        }
        &&& forall|i: int, j: int|
            0 <= i < j < self.free_slots@.len() ==> self.free_slots@[i] != self.free_slots@[j]
        &&& forall|i: int| 0 <= i < self.slots@.len() && #[trigger] self.slots@[i] is None ==> self.free_slots@.contains(i as u32)
    }

    /// The first capability, in slot order, that satisfies `pred` is held
    /// in its slot.
    pub proof fn lemma_first_match_held(&self, pred: spec_fn(Capability) -> bool)
        requires
            self.wf(),
        ensures
            ({
                let m = matching_upto(self.entries(), self.entries().len() as int, pred);
                m.len() > 0 ==> self@.contains_key(m[0].0.0) && self@[m[0].0.0] == m[0].1
            }),
    {
        let m = matching_upto(self.entries(), self.entries().len() as int, pred);
        if m.len() > 0 {
            lemma_matching_occupied(self.slots@, self.slots@.len() as int, pred, 0);
        }
    }

    /// The first capability, in slot order, that names the object
    /// `(object_type, object_id)` is held in its slot, has that identifier
    /// and that type, and no lower slot holds a capability for the same
    /// object; there is none exactly when no slot holds one.
    pub proof fn lemma_first_naming(&self, object_id: u64, object_type: ObjectType)
        requires
            self.wf(),
        ensures
            ({
                let m = matching_upto(self.entries(), self.entries().len() as int, names_object(object_id, object_type));
                &&& m.len() > 0 ==> {
                    &&& self@.contains_key(m[0].0.0)
                    &&& self@[m[0].0.0] == m[0].1
                    &&& m[0].1.object_id == object_id
                    &&& m[0].1.object_type == object_type
                    &&& forall|k: u32| k < m[0].0.0 && #[trigger] self@.contains_key(k)
                        ==> !(self@[k].object_id == object_id && self@[k].object_type == object_type)
                }
                &&& (m.len() == 0 <==> !exists|k: u32| #[trigger] self@.contains_key(k)
                        && self@[k].object_id == object_id && self@[k].object_type == object_type)
            }),
    {
        let pred = names_object(object_id, object_type);
        let n = self.slots@.len() as int;
        let m = matching_upto(self.slots@, n, pred);
        if m.len() > 0 {
            lemma_matching_occupied(self.slots@, n, pred, 0);
            assert forall|k: u32| k < m[0].0.0 && #[trigger] self@.contains_key(k)
                implies !(self@[k].object_id == object_id && self@[k].object_type == object_type) by {
                if self@[k].object_id == object_id && self@[k].object_type == object_type {
                    lemma_matching_first_le(self.slots@, n, pred, k as int);
                }
            }
            let k0 = m[0].0.0;
            assert(self@.contains_key(k0));
        } else {
            assert forall|k: u32| #[trigger] self@.contains_key(k)
                implies !(self@[k].object_id == object_id && self@[k].object_type == object_type) by {
                if self@[k].object_id == object_id && self@[k].object_type == object_type {
                    lemma_matching_first_le(self.slots@, n, pred, k as int);
                }
            }
        }
    }

    /// The table holds finitely many capabilities, as many as its occupied
    /// slots, at most `MAX_CAPABILITIES`; it refuses an insert exactly when
    /// it holds that many.
    pub proof fn lemma_view_size(&self)
        requires
            self.wf(),
        ensures
            self@.dom().finite(),
            self@.dom().len() == occupied_upto(self.entries(), self.entries().len() as int),
            self@.dom().len() <= MAX_CAPABILITIES,
            self.next_slot_for_insert() is None <==> self@.dom().len() == MAX_CAPABILITIES,
            self.next_slot_for_insert() matches Some(s) ==> !self@.contains_key(s) && (s as int) < MAX_CAPABILITIES,
    {
        let n = self.slots@.len() as int;
        if self.free_slots@.len() > 0 {
            let i = self.free_slots@.len() - 1;
            assert(self.free_slots@[i] == self.free_slots@.last());
        }
        lemma_occupied_set(self.slots@, n);
        assert(self@.dom() =~= occupied_set(self.slots@, n));
        lemma_occupied_le(self.slots@, n);
        if self.next_slot_for_insert() is None {
            assert forall|k: int| 0 <= k < n implies #[trigger] self.slots@[k] is Some by {
                if self.slots@[k] is None {
                    assert(self.free_slots@.contains(k as u32));
                }
            }
            lemma_occupied_full(self.slots@, n);
        }
        if self@.dom().len() == MAX_CAPABILITIES {
            lemma_occupied_all(self.slots@, n);
            if self.free_slots@.len() > 0 {
                let f = self.free_slots@[0];
                assert(self.slots@[f as int] is None);
            }
        }
    }

    /// Two states of a table are the same in every observable respect.
    pub open spec fn same_state(&self, other: &Self) -> bool {
        &&& self@ == other@
        &&& self.entries() == other.entries()
        &&& self.free_list() == other.free_list()
        &&& self.next_fresh() == other.next_fresh()
        &&& self.owner_pid() == other.owner_pid()
    }

    /// Every capability held has an identifier below `bound`.
    pub open spec fn ids_below(&self, bound: u64) -> bool {
        forall|k: u32| #[trigger] self@.contains_key(k) ==> self@[k].id.0 < bound
    }

    /// The slot `insert` would fill next, if any.
    pub open spec fn next_slot_for_insert(&self) -> Option<u32> {
        if self.free_list().len() > 0 {
            Some(self.free_list().last())
        } else if (self.next_fresh() as int) < MAX_CAPABILITIES {
            Some(self.next_fresh())
        } else {
            None
        }
    }

    /// The map view agrees with the slot entries.
    pub proof fn lemma_view_entries(&self)
        ensures
            forall|k: u32| #[trigger] self@.contains_key(k) <==> ((k as int) < self.entries().len() && self.entries()[k as int] is Some),
            forall|k: u32| self@.contains_key(k) ==> Some(#[trigger] self@[k]) == self.entries()[k as int],
    {
    }

    /// A new empty table owned by `owner`.
    pub fn new(owner: u64) -> (t: Self)
        ensures
            t.wf(),
            t@ == Map::<u32, Capability>::empty(),
            t.owner_pid() == owner,
            t.free_list() == Seq::<u32>::empty(),
            t.next_fresh() == 0,
            t.entries() == Seq::<Option<Capability>>::empty(),
    {
        let t = CapabilityTable { slots: Vec::new(), free_slots: Vec::new(), next_slot: 0, owner };
        assert(t@ =~= Map::<u32, Capability>::empty());
        t
    }

    /// The owner process ID.
    pub fn owner(&self) -> (o: u64)
        ensures
            o == self.owner_pid(),
    {
        self.owner
    }

    /// Allocate a slot: the last free one, else the next fresh one.
    fn allocate_slot(&mut self) -> (r: Result<u32, CapError>)
        requires
            old(self).wf(),
        ensures
            r == (match old(self).next_slot_for_insert() {
                Some(s) => Ok::<u32, CapError>(s),
                None => Err::<u32, CapError>(CapError::TableFull),
            }),
            final(self).owner == old(self).owner,
            match r {
                Ok(s) => {
                    &&& (s as int) < final(self).slots@.len()
                    &&& final(self).slots@[s as int] is None
                    &&& final(self).slots@.len() == old(self).slots@.len() + (if old(self).free_slots@.len() > 0 { 0int } else { 1int })
                    &&& forall|i: int| 0 <= i < old(self).slots@.len() ==> final(self).slots@[i] == old(self).slots@[i]
                    &&& final(self).next_slot as int <= MAX_CAPABILITIES
                    &&& final(self).slots@.len() == final(self).next_slot as int
                    &&& forall|i: int| 0 <= i < final(self).free_slots@.len() ==> {
                        &&& (final(self).free_slots@[i] as int) < final(self).slots@.len()
                        &&& final(self).slots@[final(self).free_slots@[i] as int] is None
                        &&& final(self).free_slots@[i] != s
                    }
                    &&& forall|i: int, j: int|
                        0 <= i < j < final(self).free_slots@.len() ==> final(self).free_slots@[i] != final(self).free_slots@[j]
                    &&& final(self).free_slots@ == (if old(self).free_slots@.len() > 0 { old(self).free_slots@.drop_last() } else { old(self).free_slots@ })
                    &&& final(self).next_slot == (if old(self).free_slots@.len() > 0 { old(self).next_slot } else { (old(self).next_slot + 1) as u32 })
                },
                Err(_) => final(self).slots@ == old(self).slots@ && final(self).free_slots@ == old(self).free_slots@ && final(self).next_slot == old(self).next_slot,
            },
    {
        if let Some(slot) = self.free_slots.pop() {
            return Ok(slot);
        }
        if self.next_slot as usize >= MAX_CAPABILITIES {
            return Err(CapError::TableFull);
        }
        let slot = self.next_slot;
        self.slots.push(None);
        self.next_slot = self.next_slot + 1;
        Ok(slot)
    }

    /// Insert a capability, returning the slot that now holds it.
    pub fn insert(&mut self, cap: Capability) -> (r: Result<SlotId, CapError>)
        requires
            old(self).wf(),
        ensures
            final(self).wf(),
            final(self).owner_pid() == old(self).owner_pid(),
            match old(self).next_slot_for_insert() {
                Some(s) => {
                    &&& r == Ok::<SlotId, CapError>(SlotId(s))
                    &&& !old(self)@.contains_key(s)
                    &&& final(self)@ == old(self)@.insert(s, cap)
                    &&& final(self).free_list() == (if old(self).free_list().len() > 0 { old(self).free_list().drop_last() } else { old(self).free_list() })
                    &&& final(self).next_fresh() == (if old(self).free_list().len() > 0 { old(self).next_fresh() } else { (old(self).next_fresh() + 1) as u32 })
                },
                None => r == Err::<SlotId, CapError>(CapError::TableFull) && *final(self) == *old(self),
            },
            r is Err <==> old(self)@.dom().len() == MAX_CAPABILITIES,
            r is Ok ==> final(self)@.dom().len() == old(self)@.dom().len() + 1,
            r matches Ok(s) ==> (s.0 as int) < MAX_CAPABILITIES,
            forall|bound: u64| old(self).ids_below(bound) && cap.id.0 < bound ==> #[trigger] final(self).ids_below(bound),
    {
        proof {
            old(self).lemma_view_size();
        }
        if self.free_slots.len() == 0 && self.next_slot as usize >= MAX_CAPABILITIES {
            return Err(CapError::TableFull);
        }
        let slot = match self.allocate_slot() {
            Ok(s) => s,
            Err(e) => return Err(e),
        };
        let ghost before = self.slots@;
        self.slots.set(slot as usize, Some(cap));
        proof {
            assert(self@ =~= old(self)@.insert(slot, cap));
            let of = old(self).free_slots@;
            assert forall|i: int| 0 <= i < self.slots@.len() && #[trigger] self.slots@[i] is None implies self.free_slots@.contains(i as u32) by {
                assert(i != slot as int);
                assert(i < old(self).slots@.len());
                assert(old(self).slots@[i] is None);
                assert(of.contains(i as u32));
                let j = choose|j: int| 0 <= j < of.len() && of[j] == i as u32;
                if of.len() > 0 {
                    assert(j != of.len() - 1);
                }
                assert(self.free_slots@[j] == i as u32);
            }
            self.lemma_view_size();
        }
        Ok(SlotId(slot))
    }

    /// The capability in a slot.
    pub fn lookup(&self, slot: SlotId) -> (r: Result<&Capability, CapError>)
        requires
            self.wf(),
        ensures
            match r {
                Ok(c) => self@.contains_key(slot.0) && *c == self@[slot.0],
                Err(e) => !self@.contains_key(slot.0) && e == CapError::InvalidSlot,
            },
    {
        let i = slot.0 as usize;
        if i < self.slots.len() {
            match &self.slots[i] {
                Some(c) => Ok(c),
                None => Err(CapError::InvalidSlot),
            }
        } else {
            Err(CapError::InvalidSlot)
        }
    }

    /// Mutable access to the capability in a slot.
    pub fn lookup_mut(&mut self, slot: SlotId) -> (r: Result<&mut Capability, CapError>)
        requires
            old(self).wf(),
        ensures
            match r {
                Ok(c) => {
                    &&& old(self)@.contains_key(slot.0)
                    &&& *c == old(self)@[slot.0]
                    &&& final(self)@ == old(self)@.insert(slot.0, *final(c))
                    &&& final(self).wf()
                    &&& final(self).free_list() == old(self).free_list()
                    &&& final(self).next_fresh() == old(self).next_fresh()
                    &&& final(self).owner_pid() == old(self).owner_pid()
                },
                Err(e) => !old(self)@.contains_key(slot.0) && e == CapError::InvalidSlot && final(self).same_state(&*old(self)),
            },
    {
        let i = slot.0 as usize;
        if i < self.slots.len() {
            if self.slots[i].is_none() {
                return Err(CapError::InvalidSlot);
            }
            let entry = &mut self.slots[i];
            let c = entry.as_mut().unwrap();
            Ok(c)
        } else {
            Err(CapError::InvalidSlot)
        }
    }

    /// Remove the capability in a slot, putting the slot on the free list.
    pub fn remove(&mut self, slot: SlotId) -> (r: Result<Capability, CapError>)
        requires
            old(self).wf(),
        ensures
            final(self).wf(),
            final(self).owner_pid() == old(self).owner_pid(),
            match r {
                Ok(c) => {
                    &&& old(self)@.contains_key(slot.0)
                    &&& c == old(self)@[slot.0]
                    &&& final(self)@ == old(self)@.remove(slot.0)
                    &&& final(self).free_list() == old(self).free_list().push(slot.0)
                    &&& final(self).next_fresh() == old(self).next_fresh()
                },
                Err(e) => !old(self)@.contains_key(slot.0) && e == CapError::InvalidSlot && *final(self) == *old(self),
            },
            r is Ok ==> final(self)@.dom().len() + 1 == old(self)@.dom().len(),
    {
        proof {
            old(self).lemma_view_size();
        }
        let i = slot.0 as usize;
        if i >= self.slots.len() {
            return Err(CapError::InvalidSlot);
        }
        let ghost before = self.slots@;
        let taken = match &self.slots[i] {
            Some(c) => *c,
            None => return Err(CapError::InvalidSlot),
        };
        self.slots.set(i, None);
        self.free_slots.push(slot.0);
        proof {
            let of = old(self).free_slots@;
            assert forall|k: int| 0 <= k < self.slots@.len() && #[trigger] self.slots@[k] is None implies self.free_slots@.contains(k as u32) by {
                if k == i as int {
                    assert(self.free_slots@[of.len() as int] == slot.0);
                } else {
                    assert(old(self).slots@[k] is None);
                    assert(of.contains(k as u32));
                    let j = choose|j: int| 0 <= j < of.len() && of[j] == k as u32;
                    assert(self.free_slots@[j] == k as u32);
                }
            }
            assert(self@ =~= old(self)@.remove(slot.0));
            assert forall|a: int, b: int| 0 <= a < b < self.free_slots@.len() implies self.free_slots@[a] != self.free_slots@[b] by {
                if b == self.free_slots@.len() - 1 {
                    assert(self.free_slots@[b] == slot.0);
                    assert(old(self).slots@[old(self).free_slots@[a] as int] is None);
                }
            }
            self.lemma_view_size();
        }
        Ok(taken)
    }

    /// `Ok` when the slot holds a capability with every right in `required`.
    pub fn check_rights(&self, slot: SlotId, required: CapRights) -> (r: Result<(), CapError>)
        requires
            self.wf(),
        ensures
            r == (if !self@.contains_key(slot.0) {
                Err::<(), CapError>(CapError::InvalidSlot)
            } else if rights_contain(self@[slot.0].rights, required) {
                Ok::<(), CapError>(())
            } else {
                Err::<(), CapError>(CapError::RightsViolation)
            }),
    {
        let cap = match self.lookup(slot) {
            Ok(c) => c,
            Err(e) => return Err(e),
        };
        if cap.rights.contains(required) {
            Ok(())
        } else {
            Err(CapError::RightsViolation)
        }
    }

    /// Derive, from the capability in `parent_slot`, a capability for the
    /// same object with `new_rights` and a fresh identifier, and insert it.
    pub fn derive(&mut self, ids: &mut IdCounter, parent_slot: SlotId, new_rights: CapRights) -> (r: Result<SlotId, CapError>)
        requires
            old(self).wf(),
        ensures
            final(self).wf(),
            final(self).owner_pid() == old(self).owner_pid(),
            !old(self)@.contains_key(parent_slot.0) ==> r == Err::<SlotId, CapError>(CapError::InvalidSlot) && *final(self) == *old(self),
            old(self)@.contains_key(parent_slot.0) && !rights_contain(old(self)@[parent_slot.0].rights, CapRights::GRANT())
                ==> r == Err::<SlotId, CapError>(CapError::RightsViolation) && *final(self) == *old(self),
            old(self)@.contains_key(parent_slot.0) && rights_contain(old(self)@[parent_slot.0].rights, CapRights::GRANT())
                && !rights_contain(old(self)@[parent_slot.0].rights, new_rights)
                ==> r == Err::<SlotId, CapError>(CapError::CannotDeriveMoreRights) && *final(self) == *old(self),
            old(self)@.contains_key(parent_slot.0) && rights_contain(old(self)@[parent_slot.0].rights, CapRights::GRANT())
                && rights_contain(old(self)@[parent_slot.0].rights, new_rights) ==> match old(self).next_slot_for_insert() {
                    Some(s) => {
                        &&& r == Ok::<SlotId, CapError>(SlotId(s))
                        &&& final(self)@ == old(self)@.insert(s, Capability {
                            id: CapabilityId(old(ids).peek()),
                            object_type: old(self)@[parent_slot.0].object_type,
                            object_id: old(self)@[parent_slot.0].object_id,
                            rights: new_rights,
                        })
                    },
                    None => r == Err::<SlotId, CapError>(CapError::TableFull) && *final(self) == *old(self),
                },
            r is Ok ==> final(self)@.dom().len() == old(self)@.dom().len() + 1,
            r matches Ok(s) ==> (s.0 as int) < MAX_CAPABILITIES,
            r matches Ok(s) ==> final(self)@[s.0].id.0 == old(ids).peek(),
            old(self).ids_below(old(ids).peek()) ==> (r matches Ok(s)
                ==> forall|k: u32| #[trigger] old(self)@.contains_key(k) ==> old(self)@[k].id != final(self)@[s.0].id),
            old(self).ids_below(old(ids).peek()) && old(ids).peek() < u64::MAX ==> final(self).ids_below(final(ids).peek()),
    {
        let parent = match self.lookup(parent_slot) {
            Ok(p) => *p,
            Err(e) => return Err(e),
        };
        if !parent.rights.contains(CapRights::GRANT()) {
            return Err(CapError::RightsViolation);
        }
        if !parent.rights.contains(new_rights) {
            return Err(CapError::CannotDeriveMoreRights);
        }
        let derived = Capability {
            id: CapabilityId::new(ids),
            object_type: parent.object_type,
            object_id: parent.object_id,
            rights: new_rights,
        };
        self.insert(derived)
    }

    /// All occupied slot IDs, in increasing order.
    pub fn slots(&self) -> (r: Vec<SlotId>)
        requires
            self.wf(),
        ensures
            r@ == occupied_slots_upto(self.entries(), self.entries().len() as int),
    {
        let mut out: Vec<SlotId> = Vec::new();
        let mut i: usize = 0;
        while i < self.slots.len()
            invariant
                i <= self.slots@.len(),
                self.slots@.len() <= MAX_CAPABILITIES,
                out@ == occupied_slots_upto(self.slots@, i as int),
            decreases self.slots@.len() - i,
        {
            if self.slots[i].is_some() {
                out.push(SlotId(i as u32));
            }
            i = i + 1;
        }
        out
    }

    /// Number of capabilities in the table.
    pub fn len(&self) -> (n: usize)
        requires
            self.wf(),
        ensures
            n == self@.dom().len(),
    {
        proof {
            self.lemma_view_size();
        }
        let mut n: usize = 0;
        let mut i: usize = 0;
        while i < self.slots.len()
            invariant
                i <= self.slots@.len(),
                self.slots@.len() <= MAX_CAPABILITIES,
                n as int == occupied_upto(self.slots@, i as int),
                n <= i,
            decreases self.slots@.len() - i,
        {
            if self.slots[i].is_some() {
                n = n + 1;
            }
            i = i + 1;
        }
        n
    }

    /// The table holds no capability.
    pub fn is_empty(&self) -> (b: bool)
        requires
            self.wf(),
        ensures
            b == (self@.dom().len() == 0),
    {
        self.len() == 0
    }

    /// The capabilities for objects of a type, with their slots, in slot order.
    pub fn find_by_type(&self, object_type: ObjectType) -> (r: Vec<(SlotId, Capability)>)
        requires
            self.wf(),
        ensures
            r@ == matching_upto(self.entries(), self.entries().len() as int, of_type(object_type)),
    {
        let ghost pred = of_type(object_type);
        let mut out: Vec<(SlotId, Capability)> = Vec::new();
        let mut i: usize = 0;
        while i < self.slots.len()
            invariant
                i <= self.slots@.len(),
                self.slots@.len() <= MAX_CAPABILITIES,
                out@ == matching_upto(self.slots@, i as int, pred),
                forall|c: Capability| #[trigger] pred(c) == (c.object_type == object_type),
            decreases self.slots@.len() - i,
        {
            match &self.slots[i] {
                Some(c) => {
                    if c.object_type == object_type {
                        out.push((SlotId(i as u32), *c));
                    }
                },
                None => {},
            }
            proof {
                assert(out@ =~= matching_upto(self.slots@, i + 1, pred));
            }
            i = i + 1;
        }
        out
    }

    /// The capabilities for an object ID, with their slots, in slot order.
    pub fn find_by_object(&self, object_id: u64) -> (r: Vec<(SlotId, Capability)>)
        requires
            self.wf(),
        ensures
            r@ == matching_upto(self.entries(), self.entries().len() as int, of_object(object_id)),
    {
        let ghost pred = of_object(object_id);
        let mut out: Vec<(SlotId, Capability)> = Vec::new();
        let mut i: usize = 0;
        while i < self.slots.len()
            invariant
                i <= self.slots@.len(),
                self.slots@.len() <= MAX_CAPABILITIES,
                out@ == matching_upto(self.slots@, i as int, pred),
                forall|c: Capability| #[trigger] pred(c) == (c.object_id == object_id),
            decreases self.slots@.len() - i,
        {
            match &self.slots[i] {
                Some(c) => {
                    if c.object_id == object_id {
                        out.push((SlotId(i as u32), *c));
                    }
                },
                None => {},
            }
            proof {
                assert(out@ =~= matching_upto(self.slots@, i + 1, pred));
            }
            i = i + 1;
        }
        out
    }
}

impl CapabilityTable {
    /// The first slot, in slot order, whose capability names the object
    /// `(object_type, object_id)`.
    pub fn first_slot_for(&self, object_id: u64, object_type: ObjectType) -> (r: Option<SlotId>)
        requires
            self.wf(),
        ensures
            ({
                let m = matching_upto(self.entries(), self.entries().len() as int, names_object(object_id, object_type));
                r == (if m.len() > 0 { Some(m[0].0) } else { None })
            }),
            r matches Some(s) ==> {
                &&& self@.contains_key(s.0)
                &&& self@[s.0].object_id == object_id
                &&& self@[s.0].object_type == object_type
                &&& forall|k: u32| k < s.0 && #[trigger] self@.contains_key(k)
                    ==> !(self@[k].object_id == object_id && self@[k].object_type == object_type)
            },
            r is None <==> !exists|k: u32| #[trigger] self@.contains_key(k)
                && self@[k].object_id == object_id && self@[k].object_type == object_type,
    {
        proof {
            self.lemma_first_naming(object_id, object_type);
        }
        let ghost pred = names_object(object_id, object_type);
        let mut i: usize = 0;
        while i < self.slots.len()
            invariant
                i <= self.slots@.len(),
                self.wf(),
                self.slots@.len() <= MAX_CAPABILITIES,
                matching_upto(self.slots@, i as int, pred).len() == 0,
                forall|c: Capability| #[trigger] pred(c) == (c.object_id == object_id && c.object_type == object_type),
            decreases self.slots@.len() - i,
        {
            match &self.slots[i] {
                Some(c) => {
                    if c.object_id == object_id && c.object_type == object_type {
                        proof {
                            assert(pred(self.slots@[i as int]->Some_0));
                            lemma_matching_prefix_first(self.slots@, i as int, self.slots@.len() as int, pred);
                            assert(pred == names_object(object_id, object_type));
                            assert(self.entries() == self.slots@);
                            self.lemma_first_naming(object_id, object_type);
                        }
                        return Some(SlotId(i as u32));
                    }
                },
                None => {},
            }
            i = i + 1;
        }
        None
    }
}

/// Each match among the first `n` slots names an occupied slot below `n`
/// holding the matched capability, which satisfies the predicate.
proof fn lemma_matching_occupied(slots: Seq<Option<Capability>>, n: int, pred: spec_fn(Capability) -> bool, i: int)
    requires
        0 <= n <= slots.len(),
        slots.len() <= MAX_CAPABILITIES,
        0 <= i < matching_upto(slots, n, pred).len(),
    ensures
        ({
            let e = matching_upto(slots, n, pred)[i];
            &&& (e.0.0 as int) < n
            &&& slots[e.0.0 as int] == Some(e.1)
            &&& pred(e.1)
        }),
    decreases n,
{
    if n > 0 {
        let prev = matching_upto(slots, n - 1, pred);
        if i < prev.len() {
            lemma_matching_occupied(slots, n - 1, pred, i);
        }
    }
}

/// An occupied slot `k` below `n` whose capability satisfies the predicate
/// makes the first match among the first `n` slots lie at `k` or before.
proof fn lemma_matching_first_le(slots: Seq<Option<Capability>>, n: int, pred: spec_fn(Capability) -> bool, k: int)
    requires
        0 <= k < n <= slots.len(),
        slots.len() <= MAX_CAPABILITIES,
        slots[k] is Some,
        pred(slots[k]->Some_0),
    ensures
        matching_upto(slots, n, pred).len() > 0,
        matching_upto(slots, n, pred)[0].0.0 <= k,
    decreases n,
{
    let prev = matching_upto(slots, n - 1, pred);
    if n - 1 > k {
        lemma_matching_first_le(slots, n - 1, pred, k);
    } else if prev.len() > 0 {
        lemma_matching_occupied(slots, n - 1, pred, 0);
    }
    assert(matching_upto(slots, n, pred)[0] == (if prev.len() > 0 { prev[0] } else { (SlotId((n - 1) as u32), slots[n - 1]->Some_0) }));
}

/// When no entry before `i` matches and entry `i` does, every longer prefix
/// has entry `i` as its first match.
proof fn lemma_matching_prefix_first(
    slots: Seq<Option<Capability>>,
    i: int,
    n: int,
    pred: spec_fn(Capability) -> bool,
)
    requires
        0 <= i < n <= slots.len(),
        matching_upto(slots, i, pred).len() == 0,
        slots[i] is Some,
        pred(slots[i]->Some_0),
    ensures
        matching_upto(slots, n, pred).len() > 0,
        matching_upto(slots, n, pred)[0] == (SlotId(i as u32), slots[i]->Some_0),
    decreases n,
{
    if n > i + 1 {
        lemma_matching_prefix_first(slots, i, n - 1, pred);
    }
}

/// What a table lookup gives back of an insert: the inserted capability,
/// in a slot that was free before.
pub proof fn lemma_insert_then_lookup(before: CapabilityTable, after: CapabilityTable, s: u32, cap: Capability)
    requires
        before.wf(),
        before.next_slot_for_insert() == Some(s),
        after@ == before@.insert(s, cap),
    ensures
        after@.contains_key(s),
        after@[s] == cap,
        !before@.contains_key(s),
        forall|k: u32| k != s ==> (after@.contains_key(k) == before@.contains_key(k)),
{
    if before.free_list().len() > 0 {
        let i = before.free_list().len() - 1;
        assert(before.free_list()[i] == before.free_list().last());
    }
}

/// What a removal leaves: the slot is empty, no other slot changes, and
/// the next insert fills that slot again.
pub proof fn lemma_remove_then_reuse(before: CapabilityTable, after: CapabilityTable, s: u32)
    requires
        before@.contains_key(s),
        after@ == before@.remove(s),
        after.free_list() == before.free_list().push(s),
    ensures
        !after@.contains_key(s),
        forall|k: u32| k != s ==> (after@.contains_key(k) == before@.contains_key(k)),
        forall|k: u32| k != s && after@.contains_key(k) ==> after@[k] == before@[k],
        after.next_slot_for_insert() == Some(s),
{
}

} // verus!
