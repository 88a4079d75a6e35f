//! Moving, copying and loaning capabilities between processes.

use super::table::{matching_upto, names_object, CapabilityTable, SlotId, MAX_CAPABILITIES};
use super::{CapError, Capability, CapabilityId, ObjectType};
use crate::ids::IdCounter;
use std::collections::BTreeMap;
use vstd::prelude::*;

verus! {

broadcast use {vstd::std_specs::btree::group_btree_axioms, vstd::laws_cmp::group_laws_cmp};

/// The registry of every process's capability table, by process ID.
pub struct CapabilityRegistry {
    tables: BTreeMap<u64, CapabilityTable>,
}

impl CapabilityRegistry {
    /// The registered tables, by process ID.
    pub closed spec fn view(&self) -> Map<u64, CapabilityTable> {
        self.tables@
    }

    /// The process has a table.
    pub open spec fn has(&self, pid: u64) -> bool {
        self@.contains_key(pid)
    }

    /// The table of a registered process.
    pub open spec fn table(&self, pid: u64) -> CapabilityTable {
        self@[pid]
    }

    /// Every table is well formed and owned by the process it is held for.
    pub open spec fn wf(&self) -> bool {
        forall|pid: u64| #[trigger] self.has(pid) ==> self.table(pid).wf() && self.table(pid).owner_pid() == pid
    }

    /// Every process other than `pid` has the same table in both registries.
    pub open spec fn others_unchanged(&self, other: &Self, pid: u64) -> bool {
        forall|q: u64| q != pid ==> (self.has(q) == other.has(q) && (self.has(q) ==> self.table(q) == other.table(q)))
    }

    /// Every process other than `p1` and `p2` has the same table in both registries.
    pub open spec fn others_unchanged2(&self, other: &Self, p1: u64, p2: u64) -> bool {
        forall|q: u64| q != p1 && q != p2 ==> (self.has(q) == other.has(q) && (self.has(q) ==> self.table(q) == other.table(q)))
    }

    /// An empty registry.
    pub fn new() -> (r: Self)
        ensures
            r.wf(),
            r@ == Map::<u64, CapabilityTable>::empty(),
    {
        CapabilityRegistry { tables: BTreeMap::new() }
    }

    /// The process has a table.
    pub fn is_registered(&self, process_id: u64) -> (b: bool)
        ensures
            b == self.has(process_id),
    {
        self.tables.contains_key(&process_id)
    }

    /// Give a process a new, empty table (replacing any table it had).
    pub fn register_process(&mut self, process_id: u64)
        requires
            old(self).wf(),
        ensures
            final(self).wf(),
            final(self).has(process_id),
            final(self).table(process_id)@ == Map::<u32, Capability>::empty(),
            final(self).table(process_id).owner_pid() == process_id,
            final(self).table(process_id).free_list() == Seq::<u32>::empty(),
            final(self).table(process_id).next_fresh() == 0,
            final(self).others_unchanged(&*old(self), process_id),
    {
        let t = CapabilityTable::new(process_id);
        let _ = self.tables.insert(process_id, t);
        proof {
            lemma_registry_put(*old(self), *self, process_id, t);
        }
    }

    /// A process's table.
    pub fn get_table(&self, process_id: u64) -> (r: Option<&CapabilityTable>)
        ensures
            match r {
                Some(t) => self.has(process_id) && *t == self.table(process_id),
                None => !self.has(process_id),
            },
    {
        self.tables.get(&process_id)
    }

    /// Insert a capability into a process's table.
    pub fn insert_into(&mut self, process_id: u64, cap: Capability) -> (r: Result<SlotId, CapError>)
        requires
            old(self).wf(),
        ensures
            final(self).wf(),
            !old(self).has(process_id) ==> r == Err::<SlotId, CapError>(CapError::ProcessNotFound) && final(self)@ == old(self)@,
            old(self).has(process_id) ==> {
                let t = old(self).table(process_id);
                &&& final(self).has(process_id)
                &&& final(self).others_unchanged(&*old(self), process_id)
                &&& match t.next_slot_for_insert() {
                    Some(s) => r == Ok::<SlotId, CapError>(SlotId(s)) && final(self).table(process_id)@ == t@.insert(s, cap),
                    None => r == Err::<SlotId, CapError>(CapError::TableFull) && final(self)@ == old(self)@,
                }
            },
    {
        match self.tables.remove(&process_id) {
            Some(t) => {
                let mut t = t;
                assert(old(self).has(process_id));
                let r = t.insert(cap);
                let _ = self.tables.insert(process_id, t);
                proof {
                    assert(self@ =~= old(self)@.insert(process_id, t));
                    lemma_registry_put(*old(self), *self, process_id, t);
                    if r is Err {
                        assert(self@ =~= old(self)@);
                    }
                }
                r
            },
            None => {
                proof {
                    assert(self@ =~= old(self)@);
                    assert forall|pid: u64| #[trigger] self.has(pid) implies self.table(pid).wf() && self.table(pid).owner_pid() == pid by {
                        assert(old(self).has(pid));
                    }
                }
                Err(CapError::ProcessNotFound)
            },
        }
    }

    /// Drop a process's table.
    pub fn unregister_process(&mut self, process_id: u64)
        requires
            old(self).wf(),
        ensures
            final(self).wf(),
            !final(self).has(process_id),
            final(self).others_unchanged(&*old(self), process_id),
    {
        let _ = self.tables.remove(&process_id);
        proof {
            assert forall|pid: u64| #[trigger] self.has(pid) implies self.table(pid).wf() && self.table(pid).owner_pid() == pid by {
                assert(old(self).has(pid));
            }
        }
    }

    /// The capability in a slot of a registered process's table.
    pub fn lookup_in(&self, process_id: u64, slot: SlotId) -> (r: Result<Capability, CapError>)
        requires
            self.wf(),
            self.has(process_id),
        ensures
            match r {
                Ok(c) => self.table(process_id)@.contains_key(slot.0) && c == self.table(process_id)@[slot.0],
                Err(e) => !self.table(process_id)@.contains_key(slot.0) && e == CapError::InvalidSlot,
            },
    {
        match self.tables.get(&process_id) {
            Some(t) => match t.lookup(slot) {
                Ok(c) => Ok(*c),
                Err(e) => Err(e),
            },
            None => Err(CapError::ProcessNotFound),
        }
    }

    /// Remove the capability in a slot of a registered process's table.
    pub fn remove_from(&mut self, process_id: u64, slot: SlotId) -> (r: Result<Capability, CapError>)
        requires
            old(self).wf(),
            old(self).has(process_id),
        ensures
            final(self).wf(),
            final(self).has(process_id),
            final(self).others_unchanged(&*old(self), process_id),
            match r {
                Ok(c) => {
                    &&& old(self).table(process_id)@.contains_key(slot.0)
                    &&& c == old(self).table(process_id)@[slot.0]
                    &&& final(self).table(process_id)@ == old(self).table(process_id)@.remove(slot.0)
                },
                Err(e) => !old(self).table(process_id)@.contains_key(slot.0) && e == CapError::InvalidSlot
                    && final(self)@ == old(self)@,
            },
    {
        match self.tables.remove(&process_id) {
            Some(t) => {
                let mut t = t;
                assert(old(self).has(process_id));
                let r = t.remove(slot);
                let _ = self.tables.insert(process_id, t);
                proof {
                    assert(self@ =~= old(self)@.insert(process_id, t));
                    lemma_registry_put(*old(self), *self, process_id, t);
                    if r is Err {
                        assert(self@ =~= old(self)@);
                    }
                }
                r
            },
            None => Err(CapError::ProcessNotFound),
        }
    }

    /// Number of registered processes.
    pub fn process_count(&self) -> (n: usize)
        ensures
            n == self@.dom().len(),
    {
        self.tables.len()
    }
}

/// The capability a transfer places in the target: the source capability
/// itself, or for a loan a copy with the fresh identifier `fresh`.
pub open spec fn transferred_cap(cap: Capability, mode: TransferMode, fresh: u64) -> Capability {
    match mode {
        TransferMode::Loan => Capability { id: CapabilityId(fresh), ..cap },
        _ => cap,
    }
}

/// The outcome `transfer_capability` owes for a transfer between two
/// distinct registered processes.
pub open spec fn transfer_outcome(
    before: CapabilityRegistry,
    after: CapabilityRegistry,
    r: Result<TransferResult, CapError>,
    source_pid: u64,
    source_slot: SlotId,
    target_pid: u64,
    mode: TransferMode,
    fresh: u64,
) -> bool {
    let src = before.table(source_pid);
    let tgt = before.table(target_pid);
    if !src@.contains_key(source_slot.0) {
        r == Err::<TransferResult, CapError>(CapError::InvalidSlot) && after@ == before@
    } else {
        let cap = transferred_cap(src@[source_slot.0], mode, fresh);
        match tgt.next_slot_for_insert() {
            Some(s) => {
                &&& r == Ok::<TransferResult, CapError>(TransferResult {
                    target_slot: SlotId(s),
                    source_retains: mode != TransferMode::Move,
                })
                &&& after.wf()
                &&& after.has(source_pid) && after.has(target_pid)
                &&& after.others_unchanged2(&before, source_pid, target_pid)
                &&& after.table(source_pid)@ == (if mode == TransferMode::Move { src@.remove(source_slot.0) } else { src@ })
                &&& after.table(target_pid)@ == tgt@.insert(s, cap)
                &&& after.table(target_pid)@.dom().len() == tgt@.dom().len() + 1
                &&& after.table(source_pid)@.dom().len() == src@.dom().len() - (if mode == TransferMode::Move { 1int } else { 0int })
            },
            None => r == Err::<TransferResult, CapError>(CapError::TableFull) && after@ == before@
                && tgt@.dom().len() == MAX_CAPABILITIES,
        }
    }
}

/// A successful transfer, in every mode, gives the target a capability for
/// the same object, of the same type and with the same rights as the
/// source's; a move or a copy keeps the source's identifier, a loan carries
/// the fresh identifier `fresh`.
pub proof fn lemma_transfer_keeps_authority(
    before: CapabilityRegistry,
    after: CapabilityRegistry,
    r: Result<TransferResult, CapError>,
    source_pid: u64,
    source_slot: SlotId,
    target_pid: u64,
    mode: TransferMode,
    fresh: u64,
)
    requires
        transfer_outcome(before, after, r, source_pid, source_slot, target_pid, mode, fresh),
    ensures
        r matches Ok(res) ==> {
            let held = before.table(source_pid)@[source_slot.0];
            let given = after.table(target_pid)@[res.target_slot.0];
            &&& before.table(source_pid)@.contains_key(source_slot.0)
            &&& after.table(target_pid)@.contains_key(res.target_slot.0)
            &&& given.object_type == held.object_type
            &&& given.object_id == held.object_id
            &&& given.rights == held.rights
            &&& given.id == (if mode == TransferMode::Loan { CapabilityId(fresh) } else { held.id })
        },
{
}

/// Transfer a capability between two processes' tables.
///
/// The capability is inserted in the target first; a move then removes it
/// from the source. A refused transfer changes no table.
pub fn transfer_capability(
    registry: &mut CapabilityRegistry,
    ids: &mut IdCounter,
    source_pid: u64,
    source_slot: SlotId,
    target_pid: u64,
    mode: TransferMode,
) -> (r: Result<TransferResult, CapError>)
    requires
        old(registry).wf(),
    ensures
        final(registry).wf(),
        source_pid == target_pid ==> r == Err::<TransferResult, CapError>(CapError::SameProcess)
            && final(registry)@ == old(registry)@,
        source_pid != target_pid && !(old(registry).has(source_pid) && old(registry).has(target_pid))
            ==> r == Err::<TransferResult, CapError>(CapError::ProcessNotFound) && final(registry)@ == old(registry)@,
        source_pid != target_pid && old(registry).has(source_pid) && old(registry).has(target_pid)
            ==> transfer_outcome(*old(registry), *final(registry), r, source_pid, source_slot, target_pid, mode, old(ids).peek()),
        source_pid != target_pid && old(registry).has(source_pid) && old(registry).has(target_pid) ==> (
            r matches Ok(res) ==> {
                let held = old(registry).table(source_pid)@[source_slot.0];
                let given = final(registry).table(target_pid)@[res.target_slot.0];
                &&& given.object_type == held.object_type
                &&& given.object_id == held.object_id
                &&& given.rights == held.rights
            }),
{
    if source_pid == target_pid {
        return Err(CapError::SameProcess);
    }
    if !registry.is_registered(source_pid) || !registry.is_registered(target_pid) {
        return Err(CapError::ProcessNotFound);
    }
    let cap = match mode {
        TransferMode::Loan => match registry.lookup_in(source_pid, source_slot) {
            Ok(c) => Capability { id: CapabilityId::new(ids), ..c },
            Err(e) => return Err(e),
        },
        _ => match registry.lookup_in(source_pid, source_slot) {
            Ok(c) => c,
            Err(e) => return Err(e),
        },
    };
    let ghost mid_before = *registry;
    proof {
        let src = old(registry).table(source_pid);
        let tgt = old(registry).table(target_pid);
        src.lemma_view_size();
        tgt.lemma_view_size();
    }
    let target_slot = match registry.insert_into(target_pid, cap) {
        Ok(s) => s,
        Err(e) => return Err(e),
    };
    let ghost mid = *registry;
    assert(mid.table(source_pid) == mid_before.table(source_pid));
    let retains = match mode {
        TransferMode::Move => {
            let _ = registry.remove_from(source_pid, source_slot);
            proof {
                assert(registry.table(target_pid) == mid.table(target_pid));
                assert forall|q: u64| q != source_pid && q != target_pid implies (registry.has(q) == old(registry).has(q) && (registry.has(q) ==> registry.table(q) == old(registry).table(q))) by {
                    assert(registry.has(q) == mid.has(q));
                    assert(mid.has(q) == mid_before.has(q));
                }
            }
            false
        },
        _ => true,
    };
    proof {
        let src = old(registry).table(source_pid);
        let tgt = old(registry).table(target_pid);
        assert(src.wf() && tgt.wf());
        assert(!tgt@.dom().contains(target_slot.0));
        assert(registry.table(target_pid)@.dom() =~= tgt@.dom().insert(target_slot.0));
        if mode == TransferMode::Move {
            assert(registry.table(source_pid)@.dom() =~= src@.dom().remove(source_slot.0));
        }
    }
    Ok(TransferResult { target_slot, source_retains: retains })
}

/// Revoke a loan: remove from the borrower's table the first capability,
/// in slot order, that names the same object as the owner's capability.
pub fn revoke_capability(
    registry: &mut CapabilityRegistry,
    owner_pid: u64,
    owner_slot: SlotId,
    borrower_pid: u64,
) -> (r: Result<(), CapError>)
    requires
        old(registry).wf(),
    ensures
        final(registry).wf(),
        !(old(registry).has(owner_pid) && old(registry).has(borrower_pid))
            ==> r == Err::<(), CapError>(CapError::ProcessNotFound) && final(registry)@ == old(registry)@,
        old(registry).has(owner_pid) && old(registry).has(borrower_pid)
            && !old(registry).table(owner_pid)@.contains_key(owner_slot.0)
            ==> r == Err::<(), CapError>(CapError::InvalidSlot) && final(registry)@ == old(registry)@,
        old(registry).has(owner_pid) && old(registry).has(borrower_pid)
            && old(registry).table(owner_pid)@.contains_key(owner_slot.0) ==> {
                let owned = old(registry).table(owner_pid)@[owner_slot.0];
                let b = old(registry).table(borrower_pid);
                let m = matching_upto(b.entries(), b.entries().len() as int,
                    names_object(owned.object_id, owned.object_type));
                &&& r == Ok::<(), CapError>(())
                &&& (m.len() > 0 ==> b@[m[0].0.0].object_id == owned.object_id
                        && b@[m[0].0.0].object_type == owned.object_type)
                &&& (m.len() == 0 ==> !exists|k: u32| #[trigger] b@.contains_key(k)
                        && b@[k].object_id == owned.object_id && b@[k].object_type == owned.object_type)
                &&& final(registry).has(borrower_pid)
                &&& final(registry).others_unchanged(&*old(registry), borrower_pid)
                &&& final(registry).table(borrower_pid)@ == (if m.len() > 0 { b@.remove(m[0].0.0) } else { b@ })
                &&& final(registry).table(borrower_pid)@.dom().len() == b@.dom().len() - (if m.len() > 0 { 1int } else { 0int })
            },
{
    if !registry.is_registered(owner_pid) || !registry.is_registered(borrower_pid) {
        return Err(CapError::ProcessNotFound);
    }
    let owned = match registry.lookup_in(owner_pid, owner_slot) {
        Ok(c) => c,
        Err(e) => return Err(e),
    };
    let found = match registry.get_table(borrower_pid) {
        Some(t) => t.first_slot_for(owned.object_id, owned.object_type),
        None => None,
    };
    proof {
        old(registry).table(borrower_pid).lemma_first_naming(owned.object_id, owned.object_type);
    }
    match found {
        Some(slot) => {
            let r = registry.remove_from(borrower_pid, slot);
            proof {
                let b = old(registry).table(borrower_pid);
                b.lemma_view_size();
                b.lemma_first_match_held(names_object(owned.object_id, owned.object_type));
                if r is Ok {
                    assert(registry.table(borrower_pid)@.dom() =~= b@.dom().remove(slot.0));
                }
            }
            Ok(())
        },
        None => Ok(()),
    }
}

/// Capacity of a message's inline data.
pub const CAP_MESSAGE_DATA_LEN: usize = 64;

/// IPC payload bundling data bytes with capabilities to transfer.
#[derive(Debug, Clone)]
pub struct CapabilityMessage {
    /// Message data.
    pub data: [u8; 64],
    /// Length of the valid data.
    pub data_len: usize,
    /// Capabilities to transfer, with how.
    pub capabilities: Vec<(SlotId, TransferMode)>,
}

impl CapabilityMessage {
    /// An empty message.
    pub fn new() -> (m: Self)
        ensures
            m.data@ == Seq::new(64, |i: int| 0u8),
            m.data_len == 0,
            m.capabilities@ == Seq::<(SlotId, TransferMode)>::empty(),
    {
        let m = CapabilityMessage { data: [0u8; 64], data_len: 0, capabilities: Vec::new() };
        assert(m.data@ =~= Seq::new(64, |i: int| 0u8));
        m
    }

    /// A message carrying the first (at most 64) bytes of `bytes`.
    pub fn from_bytes(bytes: &[u8]) -> (m: Self)
        ensures
            m.data_len == (if bytes@.len() < 64 { bytes@.len() } else { 64 }),
            m.data@.subrange(0, m.data_len as int) == bytes@.subrange(0, m.data_len as int),
            forall|i: int| m.data_len <= i < 64 ==> m.data@[i] == 0u8,
            m.capabilities@ == Seq::<(SlotId, TransferMode)>::empty(),
    {
        let mut data = [0u8; 64];
        let len: usize = if bytes.len() < 64 { bytes.len() } else { 64 };
        let mut i: usize = 0;
        while i < len
            invariant
                i <= len,
                len <= 64,
                len <= bytes@.len(),
                data@.len() == 64,
                forall|j: int| 0 <= j < i ==> data@[j] == bytes@[j],
                forall|j: int| i <= j < 64 ==> data@[j] == 0u8,
            decreases len - i,
        {
            data[i] = bytes[i];
            i = i + 1;
        }
        let m = CapabilityMessage { data, data_len: len, capabilities: Vec::new() };
        assert(m.data@.subrange(0, len as int) =~= bytes@.subrange(0, len as int));
        m
    }

    /// Add a capability to transfer.
    pub fn add_capability(&mut self, slot: SlotId, mode: TransferMode)
        ensures
            final(self).capabilities@ == old(self).capabilities@.push((slot, mode)),
            final(self).data == old(self).data,
            final(self).data_len == old(self).data_len,
    {
        self.capabilities.push((slot, mode));
    }

    /// The valid data bytes.
    pub fn as_bytes(&self) -> (b: &[u8])
        requires
            self.data_len <= 64,
        ensures
            b@ == self.data@.subrange(0, self.data_len as int),
    {
        &self.data[0..self.data_len]
    }
}

/// How a capability passes between processes.
#[derive(Debug, Clone, Copy, PartialEq, Eq, Structural)]
pub enum TransferMode {
    /// The source loses the capability; the target gains it.
    Move,
    /// Both hold independent copies.
    Copy,
    /// The target gets a revocable copy with a fresh identifier.
    Loan,
}

/// Result of a capability transfer.
#[derive(Debug, Clone, Copy, PartialEq, Eq, Structural)]
pub struct TransferResult {
    /// Slot in the target's table that now holds the capability.
    pub target_slot: SlotId,
    /// Whether the source still holds the capability.
    pub source_retains: bool,
}

/// Putting a well-formed table owned by `pid` under `pid` keeps the
/// registry well formed and changes no other process's table.
proof fn lemma_registry_put(before: CapabilityRegistry, after: CapabilityRegistry, pid: u64, t: CapabilityTable)
    requires
        before.wf(),
        t.wf(),
        t.owner_pid() == pid,
        after@ == before@.insert(pid, t),
    ensures
        after.wf(),
        after.has(pid),
        after.table(pid) == t,
        after.others_unchanged(&before, pid),
{
    assert forall|q: u64| #[trigger] after.has(q) implies after.table(q).wf() && after.table(q).owner_pid() == q by {
        if q != pid {
            assert(before.has(q));
        }
    }
}

} // verus!
