//! IPC endpoints: the connection points of channels.

use crate::ids::IdCounter;
use vstd::prelude::*;

verus! {

/// Process identifier.
#[derive(Debug, Clone, Copy, PartialEq, Eq, Structural, Hash)]
pub struct ProcessId(pub u64);

impl ProcessId {
    /// A fresh identifier drawn from `ids`.
    pub fn new(ids: &mut IdCounter) -> (id: Self)
        ensures
            id.0 == old(ids).peek(),
            final(ids).peek() == (if old(ids).peek() == u64::MAX { 0 } else { (old(ids).peek() + 1) as u64 }),
    {
        ProcessId(ids.next_id())
    }

    /// The identifier with the given raw value.
    pub fn from_raw(raw: u64) -> (id: Self)
        ensures
            id.0 == raw,
    {
        ProcessId(raw)
    }

    /// The raw identifier.
    pub fn as_u64(self) -> (r: u64)
        ensures
            r == self.0,
    {
        self.0
    }
}

/// Capability slot an endpoint is bound to.
#[derive(Debug, Clone, Copy, PartialEq, Eq, Structural, Hash)]
pub struct CapabilitySlot(pub u32);

impl CapabilitySlot {
    /// The slot with the given index.
    pub fn new(slot: u32) -> (s: Self)
        ensures
            s.0 == slot,
    {
        CapabilitySlot(slot)
    }

    /// The raw index.
    pub fn as_u32(self) -> (r: u32)
        ensures
            r == self.0,
    {
        self.0
    }
}

/// Endpoint identifier.
#[derive(Debug, Clone, Copy, PartialEq, Eq, Structural, Hash)]
pub struct EndpointId(pub u64);

impl EndpointId {
    /// A fresh identifier drawn from `ids`.
    pub fn new(ids: &mut IdCounter) -> (id: Self)
        ensures
            id.0 == old(ids).peek(),
            final(ids).peek() == (if old(ids).peek() == u64::MAX { 0 } else { (old(ids).peek() + 1) as u64 }),
    {
        EndpointId(ids.next_id())
    }

    /// The raw identifier.
    pub fn as_u64(self) -> (r: u64)
        ensures
            r == self.0,
    {
        self.0
    }
}

/// An endpoint: a process's end of a channel.
#[derive(Debug, Clone, Copy, PartialEq, Eq, Structural)]
pub struct Endpoint {
    pub id: EndpointId,
    pub process: ProcessId,
    pub slot: CapabilitySlot,
}

impl Endpoint {
    /// An endpoint with a fresh identifier.
    pub fn new(ids: &mut IdCounter, process: ProcessId, slot: CapabilitySlot) -> (e: Self)
        ensures
            e.id.0 == old(ids).peek(),
            e.process == process,
            e.slot == slot,
            final(ids).peek() == (if old(ids).peek() == u64::MAX { 0 } else { (old(ids).peek() + 1) as u64 }),
    {
        Endpoint { id: EndpointId::new(ids), process, slot }
    }

    /// An endpoint for a process, bound to slot 0.
    pub fn for_process(ids: &mut IdCounter, process: ProcessId) -> (e: Self)
        ensures
            e.id.0 == old(ids).peek(),
            e.process == process,
            e.slot == CapabilitySlot(0),
            final(ids).peek() == (if old(ids).peek() == u64::MAX { 0 } else { (old(ids).peek() + 1) as u64 }),
    {
        Endpoint { id: EndpointId::new(ids), process, slot: CapabilitySlot(0) }
    }
}

/// Endpoint rights bits.
#[derive(Debug, Clone, Copy, PartialEq, Eq, Structural)]
pub struct EndpointRights(pub u8);

impl EndpointRights {
    /// No right.
    #[allow(non_snake_case)]
    #[verifier::allow_in_spec]
    pub fn NONE() -> Self
        returns
            EndpointRights(0),
    {
        EndpointRights(0)
    }

    /// May send.
    #[allow(non_snake_case)]
    #[verifier::allow_in_spec]
    pub fn SEND() -> Self
        returns
            EndpointRights(1),
    {
        EndpointRights(1)
    }

    /// May receive.
    #[allow(non_snake_case)]
    #[verifier::allow_in_spec]
    pub fn RECV() -> Self
        returns
            EndpointRights(2),
    {
        EndpointRights(2)
    }

    /// May grant.
    #[allow(non_snake_case)]
    #[verifier::allow_in_spec]
    pub fn GRANT() -> Self
        returns
            EndpointRights(4),
    {
        EndpointRights(4)
    }

    /// Send, receive and grant.
    #[allow(non_snake_case)]
    #[verifier::allow_in_spec]
    pub fn FULL() -> Self
        returns
            EndpointRights(7),
    {
        EndpointRights(7)
    }

    /// The raw bits.
    pub fn bits(self) -> (b: u8)
        ensures
            b == self.0,
    {
        self.0
    }

    /// Every right of `other` is held.
    pub fn contains(self, other: Self) -> (b: bool)
        ensures
            b == (self.0 & other.0 == other.0),
    {
        (self.0 & other.0) == other.0
    }
}

/// An endpoint with its rights and its channel.
#[derive(Debug, Clone, Copy)]
pub struct EndpointInfo {
    pub endpoint: Endpoint,
    pub rights: EndpointRights,
    pub channel_id: u64,
    pub is_closed: bool,
}

impl EndpointInfo {
    /// An open endpoint.
    pub fn new(endpoint: Endpoint, rights: EndpointRights, channel_id: u64) -> (i: Self)
        ensures
            i.endpoint == endpoint,
            i.rights == rights,
            i.channel_id == channel_id,
            !i.is_closed,
    {
        EndpointInfo { endpoint, rights, channel_id, is_closed: false }
    }

    /// Open and holding the send right.
    pub open spec fn spec_can_send(&self) -> bool {
        self.rights.0 & 1 == 1 && !self.is_closed
    }

    /// Open and holding the receive right.
    pub open spec fn spec_can_recv(&self) -> bool {
        self.rights.0 & 2 == 2 && !self.is_closed
    }

    /// The endpoint may send.
    pub fn can_send(&self) -> (b: bool)
        ensures
            b == self.spec_can_send(),
    {
        self.rights.contains(EndpointRights::SEND()) && !self.is_closed
    }

    /// The endpoint may receive.
    pub fn can_recv(&self) -> (b: bool)
        ensures
            b == self.spec_can_recv(),
    {
        self.rights.contains(EndpointRights::RECV()) && !self.is_closed
    }

    /// The endpoint may grant.
    pub fn can_grant(&self) -> (b: bool)
        ensures
            b == (self.rights.0 & 4 == 4 && !self.is_closed),
    {
        self.rights.contains(EndpointRights::GRANT()) && !self.is_closed
    }

    /// Close the endpoint.
    pub fn close(&mut self)
        ensures
            *final(self) == (EndpointInfo { is_closed: true, ..*old(self) }),
    {
        self.is_closed = true;
    }
}

/// A closed endpoint can neither send nor receive, whatever its rights.
pub proof fn lemma_closed_endpoint_is_inert(info: EndpointInfo)
    requires
        info.is_closed,
    ensures
        !info.spec_can_send(),
        !info.spec_can_recv(),
{
}

} // verus!
