//! IPC channels: two endpoints joined by a message queue in each direction.

use super::endpoint::{CapabilitySlot, Endpoint, EndpointId, EndpointInfo, EndpointRights, ProcessId};
use super::message::{Message, MessageHeader, MessageType};
use super::queue::{is_pow2, MessageQueue, QueueError, DEFAULT_QUEUE_SIZE};
use crate::ids::IdCounter;
use crate::keyed::{Keyed, KeyedMap};
use vstd::prelude::*;

verus! {

/// Channel identifier.
#[derive(Debug, Clone, Copy, PartialEq, Eq, Structural, Hash, PartialOrd, Ord)]
pub struct ChannelId(pub u64);

impl ChannelId {
    /// A fresh identifier drawn from `ids`.
    pub fn new(ids: &mut IdCounter) -> (id: Self)
        ensures
            id.0 == old(ids).peek(),
            final(ids).peek() == (if old(ids).peek() == u64::MAX { 0 } else { (old(ids).peek() + 1) as u64 }),
    {
        ChannelId(ids.next_id())
    }

    /// The raw identifier.
    pub fn as_u64(self) -> (r: u64)
        ensures
            r == self.0,
    {
        self.0
    }
}

/// Channel errors.
#[derive(Debug, Clone, Copy, PartialEq, Eq, Structural)]
pub enum ChannelError {
    CreationFailed,
    InvalidEndpoint,
    QueueFull,
    QueueEmpty,
    QueueClosed,
    PermissionDenied,
    Timeout,
    ProcessNotFound,
}

/// The channel error a queue error is reported as.
pub open spec fn queue_to_channel_error(e: QueueError) -> ChannelError {
    match e {
        QueueError::Full => ChannelError::QueueFull,
        QueueError::Empty => ChannelError::QueueEmpty,
        QueueError::Closed => ChannelError::QueueClosed,
        QueueError::InvalidCapacity => ChannelError::CreationFailed,
    }
}

impl From<QueueError> for ChannelError {
    fn from(e: QueueError) -> (r: ChannelError) {
        match e {
            QueueError::Full => ChannelError::QueueFull,
            QueueError::Empty => ChannelError::QueueEmpty,
            QueueError::Closed => ChannelError::QueueClosed,
            QueueError::InvalidCapacity => ChannelError::CreationFailed,
        }
    }
}

impl vstd::std_specs::convert::FromSpecImpl<QueueError> for ChannelError {
    open spec fn obeys_from_spec() -> bool {
        true
    }

    open spec fn from_spec(e: QueueError) -> ChannelError {
        queue_to_channel_error(e)
    }
}

/// Convert a queue error.
fn channel_error_of(e: QueueError) -> (r: ChannelError)
    ensures
        r == queue_to_channel_error(e),
{
    ChannelError::from(e)
}

/// Channel flag bits.
#[derive(Debug, Clone, Copy, PartialEq, Eq, Structural)]
pub struct ChannelFlags(pub u8);

impl ChannelFlags {
    /// No flag.
    #[allow(non_snake_case)]
    #[verifier::allow_in_spec]
    pub fn NONE() -> Self
        returns
            ChannelFlags(0),
    {
        ChannelFlags(0)
    }

    /// Synchronous channel.
    #[allow(non_snake_case)]
    #[verifier::allow_in_spec]
    pub fn SYNCHRONOUS() -> Self
        returns
            ChannelFlags(1),
    {
        ChannelFlags(1)
    }

    /// Priority inheritance.
    #[allow(non_snake_case)]
    #[verifier::allow_in_spec]
    pub fn PRIORITY_INHERIT() -> Self
        returns
            ChannelFlags(2),
    {
        ChannelFlags(2)
    }

    /// Capability transfer allowed.
    #[allow(non_snake_case)]
    #[verifier::allow_in_spec]
    pub fn CAPABILITY_TRANSFER() -> Self
        returns
            ChannelFlags(4),
    {
        ChannelFlags(4)
    }

    /// The raw bits.
    pub fn bits(self) -> (b: u8)
        ensures
            b == self.0,
    {
        self.0
    }
}

/// A bidirectional channel between two endpoints.
pub struct Channel {
    pub id: ChannelId,
    pub endpoint_a: EndpointInfo,
    pub endpoint_b: EndpointInfo,
    pub queue_a_to_b: MessageQueue,
    pub queue_b_to_a: MessageQueue,
    pub flags: ChannelFlags,
    pub ref_count: u64,
}

impl Channel {
    /// Messages sent by `a` and not yet received by `b`, oldest first.
    pub open spec fn a_to_b(&self) -> Seq<Message> {
        self.queue_a_to_b@
    }

    /// Messages sent by `b` and not yet received by `a`, oldest first.
    pub open spec fn b_to_a(&self) -> Seq<Message> {
        self.queue_b_to_a@
    }

    /// The `a`-to-`b` queue has been closed.
    pub open spec fn a_to_b_closed(&self) -> bool {
        self.queue_a_to_b.closed()
    }

    /// The `b`-to-`a` queue has been closed.
    pub open spec fn b_to_a_closed(&self) -> bool {
        self.queue_b_to_a.closed()
    }

    /// Capacity of each direction's queue.
    pub open spec fn capacity_a_to_b(&self) -> nat {
        self.queue_a_to_b.cap()
    }

    /// Capacity of each direction's queue.
    pub open spec fn capacity_b_to_a(&self) -> nat {
        self.queue_b_to_a.cap()
    }

    /// The channel's flags.
    pub open spec fn flag_bits(&self) -> ChannelFlags {
        self.flags
    }

    /// The channel's internal invariant.
    pub open spec fn wf(&self) -> bool {
        self.queue_a_to_b.wf() && self.queue_b_to_a.wf()
    }

    /// Both channel states carry the same endpoints, identifier and flags.
    pub open spec fn same_shape(&self, other: &Self) -> bool {
        &&& self.id == other.id
        &&& self.endpoint_a == other.endpoint_a
        &&& self.endpoint_b == other.endpoint_b
        &&& self.flag_bits() == other.flag_bits()
        &&& self.a_to_b_closed() == other.a_to_b_closed()
        &&& self.b_to_a_closed() == other.b_to_a_closed()
        &&& self.capacity_a_to_b() == other.capacity_a_to_b()
        &&& self.capacity_b_to_a() == other.capacity_b_to_a()
    }

    /// A channel between two processes with queues of the default capacity.
    pub fn create(ids: &mut IdCounter, process_a: ProcessId, process_b: ProcessId) -> (r: Result<Self, ChannelError>)
        ensures
            r matches Ok(c) && c.fresh_channel(old(ids).peek(), process_a, process_b, DEFAULT_QUEUE_SIZE as nat),
    {
        proof {
            super::queue::lemma_default_size_pow2();
        }
        Self::create_with_capacity(ids, process_a, process_b, DEFAULT_QUEUE_SIZE)
    }

    /// The channel is newly made: identifiers `first`, `first + 1` and
    /// `first + 2` for the channel and its two endpoints, full rights on
    /// both ends, empty open queues of the capacity, synchronous.
    pub open spec fn fresh_channel(&self, first: u64, process_a: ProcessId, process_b: ProcessId, capacity: nat) -> bool {
        &&& self.wf()
        &&& self.id.0 == first
        &&& self.endpoint_a == EndpointInfo {
            endpoint: Endpoint { id: EndpointId(next_of(first)), process: process_a, slot: CapabilitySlot(0) },
            rights: EndpointRights(7),
            channel_id: first,
            is_closed: false,
        }
        &&& self.endpoint_b == EndpointInfo {
            endpoint: Endpoint { id: EndpointId(next_of(next_of(first))), process: process_b, slot: CapabilitySlot(1) },
            rights: EndpointRights(7),
            channel_id: first,
            is_closed: false,
        }
        &&& self.a_to_b() == Seq::<Message>::empty()
        &&& self.b_to_a() == Seq::<Message>::empty()
        &&& !self.a_to_b_closed() && !self.b_to_a_closed()
        &&& self.capacity_a_to_b() == capacity && self.capacity_b_to_a() == capacity
        &&& self.flag_bits() == ChannelFlags(1)
    }

    /// A channel between two processes whose queues hold `capacity`
    /// messages; `CreationFailed` unless `capacity` is a power of two.
    pub fn create_with_capacity(ids: &mut IdCounter, process_a: ProcessId, process_b: ProcessId, capacity: usize) -> (r: Result<Self, ChannelError>)
        ensures
            final(ids).peek() == next_of(next_of(next_of(old(ids).peek()))),
            !is_pow2(capacity) ==> r == Err::<Channel, ChannelError>(ChannelError::CreationFailed),
            is_pow2(capacity) ==> (r matches Ok(c) && c.fresh_channel(old(ids).peek(), process_a, process_b, capacity as nat)),
    {
        let id = ChannelId::new(ids);
        let ep_a = Endpoint::new(ids, process_a, CapabilitySlot::new(0));
        let ep_b = Endpoint::new(ids, process_b, CapabilitySlot::new(1));
        let info_a = EndpointInfo::new(ep_a, EndpointRights::FULL(), id.as_u64());
        let info_b = EndpointInfo::new(ep_b, EndpointRights::FULL(), id.as_u64());
        let queue_a_to_b = match MessageQueue::new(capacity) {
            Ok(q) => q,
            Err(e) => return Err(channel_error_of(e)),
        };
        let queue_b_to_a = match MessageQueue::new(capacity) {
            Ok(q) => q,
            Err(e) => return Err(channel_error_of(e)),
        };
        Ok(Channel {
            id,
            endpoint_a: info_a,
            endpoint_b: info_b,
            queue_a_to_b,
            queue_b_to_a,
            flags: ChannelFlags::SYNCHRONOUS(),
            ref_count: 2,
        })
    }

    /// A channel from a process to itself, with copies of its two endpoints.
    pub fn create_pair(ids: &mut IdCounter, process: ProcessId) -> (r: Result<(Self, Endpoint, Endpoint), ChannelError>)
        ensures
            r matches Ok((c, a, b)) && c.fresh_channel(old(ids).peek(), process, process, DEFAULT_QUEUE_SIZE as nat)
                && a == c.endpoint_a.endpoint && b == c.endpoint_b.endpoint,
    {
        let channel = match Self::create(ids, process, process) {
            Ok(c) => c,
            Err(e) => return Err(e),
        };
        let ep_a = channel.endpoint_a.endpoint;
        let ep_b = channel.endpoint_b.endpoint;
        Ok((channel, ep_a, ep_b))
    }

    /// Send from `a` to `b`.
    pub fn send_from_a(&mut self, msg: Message) -> (r: Result<(), ChannelError>)
        requires
            old(self).wf(),
        ensures
            final(self).wf(),
            final(self).same_shape(&*old(self)),
            final(self).b_to_a() == old(self).b_to_a(),
            !old(self).endpoint_a.spec_can_send() ==> r == Err::<(), ChannelError>(ChannelError::PermissionDenied) && final(self).a_to_b() == old(self).a_to_b(),
            old(self).endpoint_a.spec_can_send() ==> push_outcome(old(self).a_to_b(), final(self).a_to_b(), old(self).a_to_b_closed(), old(self).capacity_a_to_b(), msg, r),
    {
        if !self.endpoint_a.can_send() {
            return Err(ChannelError::PermissionDenied);
        }
        match self.queue_a_to_b.try_push(msg) {
            Ok(()) => Ok(()),
            Err(e) => Err(channel_error_of(e)),
        }
    }

    /// Send from `b` to `a`.
    pub fn send_from_b(&mut self, msg: Message) -> (r: Result<(), ChannelError>)
        requires
            old(self).wf(),
        ensures
            final(self).wf(),
            final(self).same_shape(&*old(self)),
            final(self).a_to_b() == old(self).a_to_b(),
            !old(self).endpoint_b.spec_can_send() ==> r == Err::<(), ChannelError>(ChannelError::PermissionDenied) && final(self).b_to_a() == old(self).b_to_a(),
            old(self).endpoint_b.spec_can_send() ==> push_outcome(old(self).b_to_a(), final(self).b_to_a(), old(self).b_to_a_closed(), old(self).capacity_b_to_a(), msg, r),
    {
        if !self.endpoint_b.can_send() {
            return Err(ChannelError::PermissionDenied);
        }
        match self.queue_b_to_a.try_push(msg) {
            Ok(()) => Ok(()),
            Err(e) => Err(channel_error_of(e)),
        }
    }

    /// Receive at `a` what `b` sent.
    pub fn recv_at_a(&mut self) -> (r: Result<Message, ChannelError>)
        requires
            old(self).wf(),
        ensures
            final(self).wf(),
            final(self).same_shape(&*old(self)),
            final(self).a_to_b() == old(self).a_to_b(),
            !old(self).endpoint_a.spec_can_recv() ==> r == Err::<Message, ChannelError>(ChannelError::PermissionDenied) && final(self).b_to_a() == old(self).b_to_a(),
            old(self).endpoint_a.spec_can_recv() ==> pop_outcome(old(self).b_to_a(), final(self).b_to_a(), old(self).b_to_a_closed(), r),
    {
        if !self.endpoint_a.can_recv() {
            return Err(ChannelError::PermissionDenied);
        }
        match self.queue_b_to_a.try_pop() {
            Ok(m) => Ok(m),
            Err(e) => Err(channel_error_of(e)),
        }
    }

    /// Receive at `b` what `a` sent.
    pub fn recv_at_b(&mut self) -> (r: Result<Message, ChannelError>)
        requires
            old(self).wf(),
        ensures
            final(self).wf(),
            final(self).same_shape(&*old(self)),
            final(self).b_to_a() == old(self).b_to_a(),
            !old(self).endpoint_b.spec_can_recv() ==> r == Err::<Message, ChannelError>(ChannelError::PermissionDenied) && final(self).a_to_b() == old(self).a_to_b(),
            old(self).endpoint_b.spec_can_recv() ==> pop_outcome(old(self).a_to_b(), final(self).a_to_b(), old(self).a_to_b_closed(), r),
    {
        if !self.endpoint_b.can_recv() {
            return Err(ChannelError::PermissionDenied);
        }
        match self.queue_a_to_b.try_pop() {
            Ok(m) => Ok(m),
            Err(e) => Err(channel_error_of(e)),
        }
    }

    /// Send from the endpoint with the given ID (`a` is checked first).
    pub fn send(&mut self, endpoint_id: EndpointId, msg: Message) -> (r: Result<(), ChannelError>)
        requires
            old(self).wf(),
        ensures
            final(self).wf(),
            final(self).same_shape(&*old(self)),
            send_outcome(*old(self), *final(self), endpoint_id, msg, r),
    {
        if self.endpoint_a.endpoint.id == endpoint_id {
            self.send_from_a(msg)
        } else if self.endpoint_b.endpoint.id == endpoint_id {
            self.send_from_b(msg)
        } else {
            Err(ChannelError::InvalidEndpoint)
        }
    }

    /// Receive at the endpoint with the given ID (`a` is checked first).
    pub fn recv(&mut self, endpoint_id: EndpointId) -> (r: Result<Message, ChannelError>)
        requires
            old(self).wf(),
        ensures
            final(self).wf(),
            final(self).same_shape(&*old(self)),
            recv_outcome(*old(self), *final(self), endpoint_id, r),
    {
        if self.endpoint_a.endpoint.id == endpoint_id {
            self.recv_at_a()
        } else if self.endpoint_b.endpoint.id == endpoint_id {
            self.recv_at_b()
        } else {
            Err(ChannelError::InvalidEndpoint)
        }
    }

    /// Send `msg` as a call from the endpoint, then receive at the same
    /// endpoint.
    pub fn call(&mut self, endpoint_id: EndpointId, msg: Message) -> (r: Result<Message, ChannelError>)
        requires
            old(self).wf(),
        ensures
            final(self).wf(),
            final(self).same_shape(&*old(self)),
            call_outcome(*old(self), *final(self), endpoint_id, msg, r),
    {
        let mut m = msg;
        m.header.msg_type = MessageType::Call;
        let s = self.send(endpoint_id, m);
        let ghost mid = *self;
        match s {
            Ok(()) => {},
            Err(e) => {
                assert(send_outcome(*old(self), mid, endpoint_id, call_message(msg), s) && mid.same_shape(&*old(self)));
                return Err(e);
            },
        }
        let r = self.recv(endpoint_id);
        assert(send_outcome(*old(self), mid, endpoint_id, call_message(msg), s) && mid.same_shape(&*old(self)));
        r
    }

    /// Reply from the endpoint: a send.
    pub fn reply(&mut self, endpoint_id: EndpointId, msg: Message) -> (r: Result<(), ChannelError>)
        requires
            old(self).wf(),
        ensures
            final(self).wf(),
            final(self).same_shape(&*old(self)),
            old(self).endpoint_a.endpoint.id != endpoint_id && old(self).endpoint_b.endpoint.id != endpoint_id
                ==> r == Err::<(), ChannelError>(ChannelError::InvalidEndpoint),
    {
        self.send(endpoint_id, msg)
    }

    /// Close one endpoint and the queue it sends into.
    pub fn close_endpoint(&mut self, endpoint_id: EndpointId)
        requires
            old(self).wf(),
        ensures
            final(self).wf(),
            final(self).id == old(self).id,
            final(self).a_to_b() == old(self).a_to_b(),
            final(self).b_to_a() == old(self).b_to_a(),
            old(self).endpoint_a.endpoint.id == endpoint_id ==> {
                &&& final(self).endpoint_a == (EndpointInfo { is_closed: true, ..old(self).endpoint_a })
                &&& final(self).endpoint_b == old(self).endpoint_b
                &&& final(self).a_to_b_closed()
                &&& final(self).b_to_a_closed() == old(self).b_to_a_closed()
            },
            old(self).endpoint_a.endpoint.id != endpoint_id && old(self).endpoint_b.endpoint.id == endpoint_id ==> {
                &&& final(self).endpoint_b == (EndpointInfo { is_closed: true, ..old(self).endpoint_b })
                &&& final(self).endpoint_a == old(self).endpoint_a
                &&& final(self).b_to_a_closed()
                &&& final(self).a_to_b_closed() == old(self).a_to_b_closed()
            },
            old(self).endpoint_a.endpoint.id != endpoint_id && old(self).endpoint_b.endpoint.id != endpoint_id
                ==> final(self).same_shape(&*old(self)),
    {
        if self.endpoint_a.endpoint.id == endpoint_id {
            self.endpoint_a.close();
            self.queue_a_to_b.close();
        } else if self.endpoint_b.endpoint.id == endpoint_id {
            self.endpoint_b.close();
            self.queue_b_to_a.close();
        }
    }

    /// Close both endpoints and both queues.
    pub fn close(&mut self)
        requires
            old(self).wf(),
        ensures
            final(self).wf(),
            final(self).id == old(self).id,
            final(self).endpoint_a == (EndpointInfo { is_closed: true, ..old(self).endpoint_a }),
            final(self).endpoint_b == (EndpointInfo { is_closed: true, ..old(self).endpoint_b }),
            final(self).a_to_b_closed() && final(self).b_to_a_closed(),
            final(self).a_to_b() == old(self).a_to_b(),
            final(self).b_to_a() == old(self).b_to_a(),
    {
        self.endpoint_a.close();
        self.endpoint_b.close();
        self.queue_a_to_b.close();
        self.queue_b_to_a.close();
    }

    /// Both endpoints are closed.
    pub fn is_closed(&self) -> (b: bool)
        ensures
            b == (self.endpoint_a.is_closed && self.endpoint_b.is_closed),
    {
        self.endpoint_a.is_closed && self.endpoint_b.is_closed
    }

    /// Messages waiting to be received at `a`.
    pub fn pending_at_a(&self) -> (n: usize)
        ensures
            n == self.b_to_a().len(),
    {
        self.queue_b_to_a.len()
    }

    /// Messages waiting to be received at `b`.
    pub fn pending_at_b(&self) -> (n: usize)
        ensures
            n == self.a_to_b().len(),
    {
        self.queue_a_to_b.len()
    }

    /// The channel's identifier.
    pub fn id(&self) -> (i: ChannelId)
        ensures
            i == self.id,
    {
        self.id
    }

    /// The channel's flags.
    pub fn flags(&self) -> (f: ChannelFlags)
        ensures
            f == self.flag_bits(),
    {
        self.flags
    }

    /// Replace the channel's flags.
    pub fn set_flags(&mut self, flags: ChannelFlags)
        ensures
            final(self).flag_bits() == flags,
            final(self).id == old(self).id,
            final(self).endpoint_a == old(self).endpoint_a,
            final(self).endpoint_b == old(self).endpoint_b,
            final(self).a_to_b() == old(self).a_to_b(),
            final(self).b_to_a() == old(self).b_to_a(),
            final(self).wf() == old(self).wf(),
    {
        self.flags = flags;
    }
}

/// The successor an identifier counter gives after `n`.
pub open spec fn next_of(n: u64) -> u64 {
    if n == u64::MAX { 0 } else { (n + 1) as u64 }
}

/// What `Channel::send` owes: the endpoint with the identifier (`a` is
/// checked first) pushes into the queue it sends into.
pub open spec fn send_outcome(before: Channel, after: Channel, endpoint_id: EndpointId, msg: Message, r: Result<(), ChannelError>) -> bool {
    &&& (before.endpoint_a.endpoint.id == endpoint_id ==> after.b_to_a() == before.b_to_a() && (
            if !before.endpoint_a.spec_can_send() {
                r == Err::<(), ChannelError>(ChannelError::PermissionDenied) && after.a_to_b() == before.a_to_b()
            } else {
                push_outcome(before.a_to_b(), after.a_to_b(), before.a_to_b_closed(), before.capacity_a_to_b(), msg, r)
            }))
    &&& (before.endpoint_a.endpoint.id != endpoint_id && before.endpoint_b.endpoint.id == endpoint_id
            ==> after.a_to_b() == before.a_to_b() && (
            if !before.endpoint_b.spec_can_send() {
                r == Err::<(), ChannelError>(ChannelError::PermissionDenied) && after.b_to_a() == before.b_to_a()
            } else {
                push_outcome(before.b_to_a(), after.b_to_a(), before.b_to_a_closed(), before.capacity_b_to_a(), msg, r)
            }))
    &&& (before.endpoint_a.endpoint.id != endpoint_id && before.endpoint_b.endpoint.id != endpoint_id
            ==> r == Err::<(), ChannelError>(ChannelError::InvalidEndpoint) && after.a_to_b() == before.a_to_b()
                && after.b_to_a() == before.b_to_a())
}

/// `msg` marked as a call.
pub open spec fn call_message(msg: Message) -> Message {
    Message { header: MessageHeader { msg_type: MessageType::Call, ..msg.header }, ..msg }
}

/// What `Channel::call` owes: the message, marked as a call, is sent from
/// the endpoint; a failed send is the answer, else the endpoint receives.
pub open spec fn call_outcome(before: Channel, after: Channel, endpoint_id: EndpointId, msg: Message, r: Result<Message, ChannelError>) -> bool {
    exists|mid: Channel, s: Result<(), ChannelError>| {
        &&& #[trigger] send_outcome(before, mid, endpoint_id, call_message(msg), s)
        &&& mid.same_shape(&before)
        &&& match s {
            Err(e) => r == Err::<Message, ChannelError>(e) && after.a_to_b() == mid.a_to_b() && after.b_to_a() == mid.b_to_a(),
            Ok(()) => recv_outcome(mid, after, endpoint_id, r),
        }
    }
}

/// What `Channel::recv` owes: the endpoint with the identifier (`a` is
/// checked first) pops from the queue it receives from.
pub open spec fn recv_outcome(before: Channel, after: Channel, endpoint_id: EndpointId, r: Result<Message, ChannelError>) -> bool {
    &&& (before.endpoint_a.endpoint.id == endpoint_id ==> after.a_to_b() == before.a_to_b() && (
            if !before.endpoint_a.spec_can_recv() {
                r == Err::<Message, ChannelError>(ChannelError::PermissionDenied) && after.b_to_a() == before.b_to_a()
            } else {
                pop_outcome(before.b_to_a(), after.b_to_a(), before.b_to_a_closed(), r)
            }))
    &&& (before.endpoint_a.endpoint.id != endpoint_id && before.endpoint_b.endpoint.id == endpoint_id
            ==> after.b_to_a() == before.b_to_a() && (
            if !before.endpoint_b.spec_can_recv() {
                r == Err::<Message, ChannelError>(ChannelError::PermissionDenied) && after.a_to_b() == before.a_to_b()
            } else {
                pop_outcome(before.a_to_b(), after.a_to_b(), before.a_to_b_closed(), r)
            }))
    &&& (before.endpoint_a.endpoint.id != endpoint_id && before.endpoint_b.endpoint.id != endpoint_id
            ==> r == Err::<Message, ChannelError>(ChannelError::InvalidEndpoint) && after.a_to_b() == before.a_to_b()
                && after.b_to_a() == before.b_to_a())
}

/// What a push into a queue with contents `before` owes.
pub open spec fn push_outcome(before: Seq<Message>, after: Seq<Message>, closed: bool, capacity: nat, msg: Message, r: Result<(), ChannelError>) -> bool {
    if closed {
        r == Err::<(), ChannelError>(ChannelError::QueueClosed) && after == before
    } else if before.len() >= capacity {
        r == Err::<(), ChannelError>(ChannelError::QueueFull) && after == before
    } else {
        r == Ok::<(), ChannelError>(()) && after == before.push(msg)
    }
}

/// What a pop from a queue with contents `before` owes.
pub open spec fn pop_outcome(before: Seq<Message>, after: Seq<Message>, closed: bool, r: Result<Message, ChannelError>) -> bool {
    if before.len() == 0 {
        r == Err::<Message, ChannelError>(if closed { ChannelError::QueueClosed } else { ChannelError::QueueEmpty }) && after == before
    } else {
        r == Ok::<Message, ChannelError>(before[0]) && after == before.drop_first()
    }
}

impl Keyed for Channel {
    open spec fn key_of(&self) -> u64 {
        self.id.0
    }

    fn key(&self) -> (k: u64) {
        self.id.0
    }
}

/// What a receive gives back of a send: on a fresh channel, a message sent
/// from `a` is the message received at `b`.
pub proof fn lemma_send_then_recv(c0: Channel, c1: Channel, c2: Channel, msg: Message, r1: Result<(), ChannelError>, r2: Result<Message, ChannelError>)
    requires
        c0.a_to_b() == Seq::<Message>::empty(),
        !c0.a_to_b_closed(),
        c0.capacity_a_to_b() > 0,
        push_outcome(c0.a_to_b(), c1.a_to_b(), c0.a_to_b_closed(), c0.capacity_a_to_b(), msg, r1),
        c1.a_to_b_closed() == c0.a_to_b_closed(),
        pop_outcome(c1.a_to_b(), c2.a_to_b(), c1.a_to_b_closed(), r2),
    ensures
        r1 == Ok::<(), ChannelError>(()),
        r2 == Ok::<Message, ChannelError>(msg),
        c2.a_to_b() == Seq::<Message>::empty(),
{
    assert(c1.a_to_b() =~= seq![msg]);
    assert(c1.a_to_b().drop_first() =~= Seq::<Message>::empty());
}

/// The queue `after` is the queue `before` with one message appended: the
/// message `msg` with its type set to `Call`, every other field unchanged.
pub open spec fn appended_as_call(before: Seq<Message>, after: Seq<Message>, msg: Message) -> bool {
    let sent = after.last();
    &&& after.len() == before.len() + 1
    &&& after.drop_last() == before
    &&& sent.header.msg_type == MessageType::Call
    &&& (MessageHeader { msg_type: msg.header.msg_type, ..sent.header }) == msg.header
    &&& (Message { header: msg.header, ..sent }) == msg
}

/// A call whose message goes through (the calling endpoint may send and the
/// queue towards its peer is open and not full) puts on that queue the
/// caller's message marked as a call, and nothing else: the peer learns that
/// a reply is expected, and every other field is the caller's.
pub proof fn lemma_call_sends_marked(before: Channel, after: Channel, endpoint_id: EndpointId, msg: Message, r: Result<Message, ChannelError>)
    requires
        call_outcome(before, after, endpoint_id, msg, r),
    ensures
        before.endpoint_a.endpoint.id == endpoint_id && before.endpoint_a.spec_can_send()
            && !before.a_to_b_closed() && before.a_to_b().len() < before.capacity_a_to_b()
            ==> appended_as_call(before.a_to_b(), after.a_to_b(), msg),
        before.endpoint_a.endpoint.id != endpoint_id && before.endpoint_b.endpoint.id == endpoint_id
            && before.endpoint_b.spec_can_send()
            && !before.b_to_a_closed() && before.b_to_a().len() < before.capacity_b_to_a()
            ==> appended_as_call(before.b_to_a(), after.b_to_a(), msg),
{
    let (mid, s) = choose|mid: Channel, s: Result<(), ChannelError>| {
        &&& #[trigger] send_outcome(before, mid, endpoint_id, call_message(msg), s)
        &&& mid.same_shape(&before)
        &&& match s {
            Err(e) => r == Err::<Message, ChannelError>(e) && after.a_to_b() == mid.a_to_b() && after.b_to_a() == mid.b_to_a(),
            Ok(()) => recv_outcome(mid, after, endpoint_id, r),
        }
    };
    if before.endpoint_a.endpoint.id == endpoint_id && before.endpoint_a.spec_can_send()
        && !before.a_to_b_closed() && before.a_to_b().len() < before.capacity_a_to_b() {
        assert(mid.a_to_b() == before.a_to_b().push(call_message(msg)));
        assert(after.a_to_b().drop_last() =~= before.a_to_b());
    }
    if before.endpoint_a.endpoint.id != endpoint_id && before.endpoint_b.endpoint.id == endpoint_id
        && before.endpoint_b.spec_can_send()
        && !before.b_to_a_closed() && before.b_to_a().len() < before.capacity_b_to_a() {
        assert(mid.b_to_a() == before.b_to_a().push(call_message(msg)));
        assert(after.b_to_a().drop_last() =~= before.b_to_a());
    }
}

/// The table of channels.
pub struct ChannelManager {
    channels: KeyedMap<Channel>,
}

impl ChannelManager {
    /// The channels, by identifier.
    pub closed spec fn view(&self) -> Map<u64, Channel> {
        self.channels@
    }

    /// Number of channels.
    pub closed spec fn count(&self) -> nat {
        self.channels.count()
    }

    /// The manager's invariant: distinct identifiers, well-formed channels.
    pub closed spec fn wf(&self) -> bool {
        &&& self.channels.wf()
        &&& forall|k: u64| #[trigger] self.channels@.contains_key(k) ==> self.channels@[k].wf()
    }

    /// An empty manager.
    pub fn new() -> (m: Self)
        ensures
            m.wf(),
            m@ == Map::<u64, Channel>::empty(),
            m.count() == 0,
    {
        ChannelManager { channels: KeyedMap::new() }
    }

    /// Create a channel between two processes and register it.
    pub fn create_channel(&mut self, ids: &mut IdCounter, process_a: ProcessId, process_b: ProcessId) -> (r: Result<ChannelId, ChannelError>)
        requires
            old(self).wf(),
        ensures
            final(self).wf(),
            r == Ok::<ChannelId, ChannelError>(ChannelId(old(ids).peek())),
            final(self)@.contains_key(old(ids).peek()),
            final(self)@[old(ids).peek()].fresh_channel(old(ids).peek(), process_a, process_b, DEFAULT_QUEUE_SIZE as nat),
            final(self)@ == old(self)@.insert(old(ids).peek(), final(self)@[old(ids).peek()]),
            final(self).count() == old(self).count() + (if old(self)@.contains_key(old(ids).peek()) { 0int } else { 1int }),
    {
        let channel = match Channel::create(ids, process_a, process_b) {
            Ok(c) => c,
            Err(e) => return Err(e),
        };
        let id = channel.id;
        self.channels.insert(channel);
        Ok(id)
    }

    /// The channel with the given identifier.
    pub fn get_channel(&self, id: ChannelId) -> (r: Option<&Channel>)
        requires
            self.wf(),
        ensures
            match r {
                Some(c) => self@.contains_key(id.0) && *c == self@[id.0],
                None => !self@.contains_key(id.0),
            },
    {
        self.channels.get(id.0)
    }

    /// Remove (and close) a channel; absent identifiers are ignored.
    pub fn destroy_channel(&mut self, id: ChannelId) -> (r: Result<(), ChannelError>)
        requires
            old(self).wf(),
        ensures
            final(self).wf(),
            r == Ok::<(), ChannelError>(()),
            final(self)@ == old(self)@.remove(id.0),
            final(self).count() == old(self).count() - (if old(self)@.contains_key(id.0) { 1int } else { 0int }),
    {
        match self.channels.remove(id.0) {
            Some(c) => {
                let mut c = c;
                c.close();
            },
            None => {},
        }
        Ok(())
    }

    /// Whether a channel with the given identifier is registered.
    pub fn contains(&self, id: ChannelId) -> (b: bool)
        requires
            self.wf(),
        ensures
            b == self@.contains_key(id.0),
    {
        self.channels.contains(id.0)
    }

    /// Number of channels.
    pub fn channel_count(&self) -> (n: usize)
        ensures
            n == self.count(),
    {
        self.channels.len()
    }

    /// Run an operation on a registered channel: take it out, apply, put it back.
    fn take(&mut self, id: ChannelId) -> (r: Option<Channel>)
        requires
            old(self).wf(),
        ensures
            final(self).channels.wf(),
            forall|k: u64| #[trigger] final(self).channels@.contains_key(k) ==> final(self).channels@[k].wf(),
            final(self).channels@ == old(self).channels@.remove(id.0),
            match r {
                Some(c) => old(self)@.contains_key(id.0) && c == old(self)@[id.0] && c.wf() && c.id == id,
                None => !old(self)@.contains_key(id.0),
            },
    {
        self.channels.remove(id.0)
    }

    /// Receive on a registered channel at one of its endpoints.
    pub fn recv(&mut self, id: ChannelId, endpoint_id: EndpointId) -> (r: Option<Result<Message, ChannelError>>)
        requires
            old(self).wf(),
        ensures
            final(self).wf(),
            !old(self)@.contains_key(id.0) ==> r is None && final(self)@ == old(self)@,
            old(self)@.contains_key(id.0) ==> (r matches Some(res) && final(self)@.dom() == old(self)@.dom()
                && final(self)@[id.0].same_shape(&old(self)@[id.0])
                && recv_outcome(old(self)@[id.0], final(self)@[id.0], endpoint_id, res)
                && (forall|k: u64| k != id.0 && #[trigger] old(self)@.contains_key(k) ==> final(self)@[k] == old(self)@[k])),
    {
        match self.take(id) {
            Some(c) => {
                let mut c = c;
                let res = c.recv(endpoint_id);
                self.channels.insert(c);
                proof {
                    assert(self@.dom() =~= old(self)@.dom());
                }
                Some(res)
            },
            None => {
                proof {
                    assert(self.channels@ =~= old(self).channels@);
                }
                None
            },
        }
    }

    /// Make a call on a registered channel from one of its endpoints.
    pub fn call(&mut self, id: ChannelId, endpoint_id: EndpointId, msg: Message) -> (r: Option<Result<Message, ChannelError>>)
        requires
            old(self).wf(),
        ensures
            final(self).wf(),
            !old(self)@.contains_key(id.0) ==> r is None && final(self)@ == old(self)@,
            old(self)@.contains_key(id.0) ==> (r matches Some(res) && final(self)@.dom() == old(self)@.dom()
                && final(self)@[id.0].same_shape(&old(self)@[id.0])
                && call_outcome(old(self)@[id.0], final(self)@[id.0], endpoint_id, msg, res)
                && (forall|k: u64| k != id.0 && #[trigger] old(self)@.contains_key(k) ==> final(self)@[k] == old(self)@[k])),
    {
        match self.take(id) {
            Some(c) => {
                let mut c = c;
                let res = c.call(endpoint_id, msg);
                self.channels.insert(c);
                proof {
                    assert(self@.dom() =~= old(self)@.dom());
                }
                Some(res)
            },
            None => {
                proof {
                    assert(self.channels@ =~= old(self).channels@);
                }
                None
            },
        }
    }

    /// Send on a registered channel from one of its endpoints.
    pub fn send(&mut self, id: ChannelId, endpoint_id: EndpointId, msg: Message) -> (r: Option<Result<(), ChannelError>>)
        requires
            old(self).wf(),
        ensures
            final(self).wf(),
            !old(self)@.contains_key(id.0) ==> r is None && final(self)@ == old(self)@,
            old(self)@.contains_key(id.0) ==> (r matches Some(res) && final(self)@.dom() == old(self)@.dom()
                && final(self)@[id.0].same_shape(&old(self)@[id.0])
                && send_outcome(old(self)@[id.0], final(self)@[id.0], endpoint_id, msg, res)
                && (forall|k: u64| k != id.0 && #[trigger] old(self)@.contains_key(k) ==> final(self)@[k] == old(self)@[k])),
    {
        match self.take(id) {
            Some(c) => {
                let mut c = c;
                let res = c.send(endpoint_id, msg);
                self.channels.insert(c);
                proof {
                    assert(self@.dom() =~= old(self)@.dom());
                }
                Some(res)
            },
            None => {
                proof {
                    assert(self.channels@ =~= old(self).channels@);
                }
                None
            },
        }
    }
}

} // verus!
