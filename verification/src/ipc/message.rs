//! IPC message format: header, inline payload and inline capabilities.

use crate::ids::IdCounter;
use vstd::prelude::*;

verus! {

/// Maximum number of capabilities carried inline.
pub const MAX_INLINE_CAPS: usize = 4;
/// Maximum inline payload in bytes.
pub const MAX_INLINE_PAYLOAD: usize = 256;

/// Kinds of messages.
#[derive(Debug, Clone, Copy, PartialEq, Eq, Structural)]
pub enum MessageType {
    Call,
    Send,
    Recv,
    Signal,
    ShareMemory,
}

/// Message flag bits.
#[derive(Debug, Clone, Copy, PartialEq, Eq, Structural)]
pub struct MessageFlags(pub u8);

/// All defined message flag bits.
pub const MESSAGE_FLAGS_ALL: u8 = 0x1F;

impl MessageFlags {
    /// No flag.
    #[allow(non_snake_case)]
    #[verifier::allow_in_spec]
    pub fn NONE() -> Self
        returns
            MessageFlags(0),
    {
        MessageFlags(0)
    }

    /// The sender blocks.
    #[allow(non_snake_case)]
    #[verifier::allow_in_spec]
    pub fn BLOCKING() -> Self
        returns
            MessageFlags(1),
    {
        MessageFlags(1)
    }

    /// Priority delivery.
    #[allow(non_snake_case)]
    #[verifier::allow_in_spec]
    pub fn PRIORITY() -> Self
        returns
            MessageFlags(2),
    {
        MessageFlags(2)
    }

    /// The message transfers capabilities.
    #[allow(non_snake_case)]
    #[verifier::allow_in_spec]
    pub fn CAP_TRANSFER() -> Self
        returns
            MessageFlags(4),
    {
        MessageFlags(4)
    }

    /// The message shares memory.
    #[allow(non_snake_case)]
    #[verifier::allow_in_spec]
    pub fn SHMEM_TRANSFER() -> Self
        returns
            MessageFlags(8),
    {
        MessageFlags(8)
    }

    /// The sender expects a reply.
    #[allow(non_snake_case)]
    #[verifier::allow_in_spec]
    pub fn REPLY_EXPECTED() -> Self
        returns
            MessageFlags(16),
    {
        MessageFlags(16)
    }

    /// The raw bits.
    pub fn bits(self) -> (b: u8)
        ensures
            b == self.0,
    {
        self.0
    }

    /// Flags from raw bits, dropping undefined ones.
    pub fn from_bits_truncate(bits: u8) -> (f: Self)
        ensures
            f.0 == bits & MESSAGE_FLAGS_ALL,
    {
        MessageFlags(bits & MESSAGE_FLAGS_ALL)
    }

    /// Every flag of `other` is set.
    pub fn contains(self, other: Self) -> (b: bool)
        ensures
            b == (self.0 & other.0 == other.0),
    {
        (self.0 & other.0) == other.0
    }

    /// The union of two flag sets.
    pub fn union(self, other: Self) -> (f: Self)
        ensures
            f.0 == self.0 | other.0,
    {
        MessageFlags(self.0 | other.0)
    }
}

impl core::ops::BitOr for MessageFlags {
    type Output = Self;

    fn bitor(self, rhs: Self) -> (r: Self) {
        MessageFlags(self.0 | rhs.0)
    }
}

impl vstd::std_specs::ops::BitOrSpecImpl for MessageFlags {
    open spec fn obeys_bitor_spec() -> bool {
        true
    }

    open spec fn bitor_req(self, rhs: MessageFlags) -> bool {
        true
    }

    open spec fn bitor_spec(self, rhs: MessageFlags) -> MessageFlags {
        MessageFlags(self.0 | rhs.0)
    }
}

/// Message header.
#[derive(Debug, Clone, Copy)]
pub struct MessageHeader {
    pub size: u32,
    pub cap_count: u8,
    pub msg_type: MessageType,
    pub sender_pid: u64,
    pub priority: u8,
    pub flags: MessageFlags,
    pub reserved: [u8; 5],
}

impl MessageHeader {
    /// A header with no payload, no capabilities, default priority 128 and no flags.
    pub fn new(msg_type: MessageType, sender_pid: u64) -> (h: Self)
        ensures
            h.size == 0,
            h.cap_count == 0,
            h.msg_type == msg_type,
            h.sender_pid == sender_pid,
            h.priority == 128,
            h.flags == MessageFlags(0),
            h.reserved@ == seq![0u8, 0u8, 0u8, 0u8, 0u8],
    {
        let h = MessageHeader {
            size: 0,
            cap_count: 0,
            msg_type,
            sender_pid,
            priority: 128,
            flags: MessageFlags(0),
            reserved: [0u8; 5],
        };
        assert(h.reserved@ =~= seq![0u8, 0u8, 0u8, 0u8, 0u8]);
        h
    }

    /// Set the payload size.
    pub fn with_size(self, size: u32) -> (h: Self)
        ensures
            h == (MessageHeader { size, ..self }),
    {
        let mut h = self;
        h.size = size;
        h
    }

    /// Set the priority.
    pub fn with_priority(self, priority: u8) -> (h: Self)
        ensures
            h == (MessageHeader { priority, ..self }),
    {
        let mut h = self;
        h.priority = priority;
        h
    }

    /// Set the flags.
    pub fn with_flags(self, flags: MessageFlags) -> (h: Self)
        ensures
            h == (MessageHeader { flags, ..self }),
    {
        let mut h = self;
        h.flags = flags;
        h
    }

    /// Set the capability count, capped at `MAX_INLINE_CAPS`.
    pub fn with_caps(self, count: u8) -> (h: Self)
        ensures
            h == (MessageHeader { cap_count: if count < 4 { count } else { 4u8 }, ..self }),
    {
        let mut h = self;
        h.cap_count = if count < MAX_INLINE_CAPS as u8 { count } else { MAX_INLINE_CAPS as u8 };
        h
    }
}

/// Message identifier.
#[derive(Debug, Clone, Copy, PartialEq, Eq, Structural)]
pub struct MessageId(pub u64);

impl MessageId {
    /// A fresh identifier drawn from `ids`.
    pub fn new(ids: &mut IdCounter) -> (id: Self)
        ensures
            id.0 == old(ids).peek(),
            final(ids).peek() == (if old(ids).peek() == u64::MAX { 0 } else { (old(ids).peek() + 1) as u64 }),
    {
        MessageId(ids.next_id())
    }

    /// The raw identifier.
    pub fn as_u64(self) -> (r: u64)
        ensures
            r == self.0,
    {
        self.0
    }
}

/// An IPC message.
#[derive(Debug, Clone, Copy)]
pub struct Message {
    pub id: MessageId,
    pub header: MessageHeader,
    pub inline_caps: [Option<u64>; 4],
    pub inline_payload: [u8; 256],
    pub payload_len: usize,
    pub extra_caps_handle: u32,
}

/// The capability IDs held inline, in slot order.
pub open spec fn caps_of(slots: Seq<Option<u64>>, n: int) -> Seq<u64>
    decreases n,
{
    if n <= 0 {
        Seq::empty()
    } else {
        match slots[n - 1] {
            Some(c) => caps_of(slots, n - 1).push(c),
            None => caps_of(slots, n - 1),
        }
    }
}

/// The capability IDs `with_caps` adds: the first four of `caps`.
pub open spec fn caps_taken(caps: Seq<u64>) -> Seq<u64> {
    if caps.len() < 4 { caps } else { caps.subrange(0, 4) }
}

/// The inline slots after `with_cap` of each of `ids` in turn.
pub open spec fn caps_after(slots: Seq<Option<u64>>, ids: Seq<u64>) -> Seq<Option<u64>>
    decreases ids.len(),
{
    if ids.len() == 0 {
        slots
    } else {
        let before = caps_after(slots, ids.drop_last());
        match first_free_cap(before) {
            Some(i) => before.update(i, Some(ids.last())),
            None => before,
        }
    }
}

/// How many of `ids`, added with `with_cap` in turn, found an empty slot.
pub open spec fn caps_added(slots: Seq<Option<u64>>, ids: Seq<u64>) -> nat
    decreases ids.len(),
{
    if ids.len() == 0 {
        0
    } else {
        caps_added(slots, ids.drop_last()) + (if first_free_cap(caps_after(slots, ids.drop_last())) is Some { 1nat } else { 0nat })
    }
}

/// Adding a prefix of `ids` adds no more than adding all of them.
proof fn lemma_caps_added_prefix(slots: Seq<Option<u64>>, ids: Seq<u64>, j: int)
    requires
        0 <= j <= ids.len(),
    ensures
        caps_added(slots, ids.subrange(0, j)) <= caps_added(slots, ids),
    decreases ids.len() - j,
{
    if j < ids.len() {
        let a = ids.subrange(0, j + 1);
        assert(a.drop_last() =~= ids.subrange(0, j));
        lemma_caps_added_prefix(slots, ids, j + 1);
    } else {
        assert(ids.subrange(0, j) =~= ids);
    }
}

/// Adding capabilities keeps the number of slots.
proof fn lemma_caps_after_len(slots: Seq<Option<u64>>, ids: Seq<u64>)
    requires
        slots.len() == 4,
    ensures
        caps_after(slots, ids).len() == slots.len(),
    decreases ids.len(),
{
    if ids.len() > 0 {
        lemma_caps_after_len(slots, ids.drop_last());
    }
}

/// The index of the first empty inline capability slot, if any.
pub open spec fn first_free_cap(slots: Seq<Option<u64>>) -> Option<int> {
    if slots[0] is None {
        Some(0)
    } else if slots[1] is None {
        Some(1)
    } else if slots[2] is None {
        Some(2)
    } else if slots[3] is None {
        Some(3)
    } else {
        None
    }
}

impl Message {
    /// A message of the given type from `sender_pid`, with a fresh identifier,
    /// an empty payload and no capabilities.
    pub fn new(ids: &mut IdCounter, msg_type: MessageType, sender_pid: u64) -> (m: Self)
        ensures
            m.id.0 == old(ids).peek(),
            final(ids).peek() == (if old(ids).peek() == u64::MAX { 0 } else { (old(ids).peek() + 1) as u64 }),
            m.header.size == 0,
            m.header.cap_count == 0,
            m.header.msg_type == msg_type,
            m.header.sender_pid == sender_pid,
            m.header.priority == 128,
            m.header.flags == MessageFlags(0),
            m.inline_caps@ == seq![None::<u64>, None, None, None],
            m.inline_payload@ == Seq::new(256, |i: int| 0u8),
            m.payload_len == 0,
            m.extra_caps_handle == 0,
    {
        let m = Message {
            id: MessageId::new(ids),
            header: MessageHeader::new(msg_type, sender_pid),
            inline_caps: [None; 4],
            inline_payload: [0u8; 256],
            payload_len: 0,
            extra_caps_handle: 0,
        };
        assert(m.inline_caps@ =~= seq![None::<u64>, None, None, None]);
        assert(m.inline_payload@ =~= Seq::new(256, |i: int| 0u8));
        m
    }

    /// A call: a blocking message that expects a reply.
    pub fn call(ids: &mut IdCounter, sender_pid: u64) -> (m: Self)
        ensures
            m.id.0 == old(ids).peek(),
            final(ids).peek() == (if old(ids).peek() == u64::MAX { 0 } else { (old(ids).peek() + 1) as u64 }),
            m.header.msg_type == MessageType::Call,
            m.header.sender_pid == sender_pid,
            m.header.flags == MessageFlags(17),
            m.header.size == 0,
            m.header.cap_count == 0,
            m.payload_len == 0,
            m.inline_caps@ == seq![None::<u64>, None, None, None],
    {
        let mut msg = Self::new(ids, MessageType::Call, sender_pid);
        msg.header.flags = msg.header.flags | (MessageFlags::REPLY_EXPECTED() | MessageFlags::BLOCKING());
        assert(0u8 | (16u8 | 1u8) == 17u8) by (bit_vector);
        msg
    }

    /// A plain send.
    pub fn send(ids: &mut IdCounter, sender_pid: u64) -> (m: Self)
        ensures
            m.id.0 == old(ids).peek(),
            final(ids).peek() == (if old(ids).peek() == u64::MAX { 0 } else { (old(ids).peek() + 1) as u64 }),
            m.header.msg_type == MessageType::Send,
            m.header.sender_pid == sender_pid,
            m.header.flags == MessageFlags(0),
            m.header.size == 0,
            m.header.cap_count == 0,
            m.payload_len == 0,
            m.inline_caps@ == seq![None::<u64>, None, None, None],
    {
        Self::new(ids, MessageType::Send, sender_pid)
    }

    /// A signal.
    pub fn signal(ids: &mut IdCounter, sender_pid: u64) -> (m: Self)
        ensures
            m.id.0 == old(ids).peek(),
            final(ids).peek() == (if old(ids).peek() == u64::MAX { 0 } else { (old(ids).peek() + 1) as u64 }),
            m.header.msg_type == MessageType::Signal,
            m.header.sender_pid == sender_pid,
            m.header.flags == MessageFlags(0),
            m.header.size == 0,
            m.header.cap_count == 0,
            m.payload_len == 0,
            m.inline_caps@ == seq![None::<u64>, None, None, None],
    {
        Self::new(ids, MessageType::Signal, sender_pid)
    }

    /// A shared-memory message.
    pub fn share_memory(ids: &mut IdCounter, sender_pid: u64) -> (m: Self)
        ensures
            m.id.0 == old(ids).peek(),
            final(ids).peek() == (if old(ids).peek() == u64::MAX { 0 } else { (old(ids).peek() + 1) as u64 }),
            m.header.msg_type == MessageType::ShareMemory,
            m.header.sender_pid == sender_pid,
            m.header.flags == MessageFlags(8),
            m.header.size == 0,
            m.header.cap_count == 0,
            m.payload_len == 0,
            m.inline_caps@ == seq![None::<u64>, None, None, None],
    {
        let mut msg = Self::new(ids, MessageType::ShareMemory, sender_pid);
        msg.header.flags = msg.header.flags | MessageFlags::SHMEM_TRANSFER();
        assert(0u8 | 8u8 == 8u8) by (bit_vector);
        msg
    }

    /// Set the payload to the first (at most 256) bytes of `data`; the
    /// header size follows the payload length.
    pub fn with_payload(self, data: &[u8]) -> (m: Self)
        ensures
            m.payload_len == (if data@.len() < 256 { data@.len() } else { 256 }),
            m.header.size == m.payload_len,
            m.inline_payload@.subrange(0, m.payload_len as int) == data@.subrange(0, m.payload_len as int),
            forall|i: int| m.payload_len <= i < 256 ==> m.inline_payload@[i] == self.inline_payload@[i],
            m.id == self.id,
            m.inline_caps == self.inline_caps,
            m.extra_caps_handle == self.extra_caps_handle,
            m.header == (MessageHeader { size: m.header.size, ..self.header }),
    {
        let mut m = self;
        let len: usize = if data.len() < MAX_INLINE_PAYLOAD { data.len() } else { MAX_INLINE_PAYLOAD };
        let mut i: usize = 0;
        while i < len
            invariant
                i <= len,
                len <= 256,
                len <= data@.len(),
                m.inline_payload@.len() == 256,
                forall|j: int| 0 <= j < i ==> m.inline_payload@[j] == data@[j],
                forall|j: int| i <= j < 256 ==> m.inline_payload@[j] == self.inline_payload@[j],
                m.id == self.id,
                m.inline_caps == self.inline_caps,
                m.extra_caps_handle == self.extra_caps_handle,
                m.header == self.header,
            decreases len - i,
        {
            m.inline_payload[i] = data[i];
            i = i + 1;
        }
        m.payload_len = len;
        m.header.size = len as u32;
        assert(m.inline_payload@.subrange(0, len as int) =~= data@.subrange(0, len as int));
        m
    }

    /// Put a capability ID in the first empty inline slot (if any), counting
    /// it in the header and flagging the capability transfer.
    pub fn with_cap(self, cap_id: u64) -> (m: Self)
        requires
            first_free_cap(self.inline_caps@) is Some ==> self.header.cap_count < 255,
        ensures
            match first_free_cap(self.inline_caps@) {
                Some(i) => {
                    &&& m.inline_caps@ == self.inline_caps@.update(i, Some(cap_id))
                    &&& m.header == (MessageHeader {
                        cap_count: (self.header.cap_count + 1) as u8,
                        flags: MessageFlags(self.header.flags.0 | 4),
                        ..self.header
                    })
                },
                None => m.inline_caps == self.inline_caps && m.header == self.header,
            },
            m.id == self.id,
            m.inline_payload == self.inline_payload,
            m.payload_len == self.payload_len,
            m.extra_caps_handle == self.extra_caps_handle,
    {
        let mut m = self;
        let mut i: usize = 0;
        while i < MAX_INLINE_CAPS
            invariant
                i <= 4,
                forall|j: int| 0 <= j < i ==> self.inline_caps@[j] is Some,
                m == self,
                first_free_cap(self.inline_caps@) is Some ==> self.header.cap_count < 255,
            decreases 4 - i,
        {
            if m.inline_caps[i].is_none() {
                m.inline_caps[i] = Some(cap_id);
                m.header.cap_count = m.header.cap_count + 1;
                m.header.flags = m.header.flags | MessageFlags::CAP_TRANSFER();
                assert(m.inline_caps@ =~= self.inline_caps@.update(i as int, Some(cap_id)));
                return m;
            }
            i = i + 1;
        }
        m
    }

    /// Add the first (at most four) capability IDs of `caps`, one by one
    /// (see `with_cap`).
    pub fn with_caps(self, caps: &[u64]) -> (m: Self)
        requires
            self.header.cap_count + caps_added(self.inline_caps@, caps_taken(caps@)) <= 255,
        ensures
            ({
                let ids = caps_taken(caps@);
                let k = caps_added(self.inline_caps@, ids);
                &&& m.inline_caps@ == caps_after(self.inline_caps@, ids)
                &&& m.header == (MessageHeader {
                    cap_count: (self.header.cap_count + k) as u8,
                    flags: MessageFlags(if k > 0 { self.header.flags.0 | 4 } else { self.header.flags.0 }),
                    ..self.header
                })
            }),
            m.id == self.id,
            m.inline_payload == self.inline_payload,
            m.payload_len == self.payload_len,
            m.extra_caps_handle == self.extra_caps_handle,
    {
        let mut m = self;
        let n: usize = if caps.len() < MAX_INLINE_CAPS { caps.len() } else { MAX_INLINE_CAPS };
        let ghost ids = caps_taken(caps@);
        assert(ids.len() == n);
        let mut i: usize = 0;
        while i < n
            invariant
                i <= n,
                n <= 4,
                n <= caps@.len(),
                ids == caps_taken(caps@),
                ids.len() == n,
                self.inline_caps@.len() == 4,
                m.inline_caps@ == caps_after(self.inline_caps@, ids.subrange(0, i as int)),
                m.header == (MessageHeader {
                    cap_count: (self.header.cap_count + caps_added(self.inline_caps@, ids.subrange(0, i as int))) as u8,
                    flags: MessageFlags(if caps_added(self.inline_caps@, ids.subrange(0, i as int)) > 0 { self.header.flags.0 | 4 } else { self.header.flags.0 }),
                    ..self.header
                }),
                self.header.cap_count + caps_added(self.inline_caps@, ids) <= 255,
                m.id == self.id,
                m.inline_payload == self.inline_payload,
                m.payload_len == self.payload_len,
                m.extra_caps_handle == self.extra_caps_handle,
            decreases n - i,
        {
            let ghost pre = ids.subrange(0, i as int);
            let ghost next = ids.subrange(0, i + 1);
            proof {
                assert(next.drop_last() =~= pre);
                assert(next.last() == caps@[i as int]);
                lemma_caps_added_prefix(self.inline_caps@, ids, i + 1);
                lemma_caps_after_len(self.inline_caps@, pre);
                let f = self.header.flags.0;
                assert(f | 4 | 4 == f | 4) by (bit_vector);
            }
            m = m.with_cap(caps[i]);
            i = i + 1;
        }
        assert(ids.subrange(0, n as int) =~= ids);
        m
    }

    /// The payload bytes.
    pub fn payload(&self) -> (p: &[u8])
        requires
            self.payload_len <= 256,
        ensures
            p@ == self.inline_payload@.subrange(0, self.payload_len as int),
    {
        &self.inline_payload[0..self.payload_len]
    }

    /// The inline capability IDs, in slot order.
    pub fn caps(&self) -> (r: Vec<u64>)
        ensures
            r@ == caps_of(self.inline_caps@, 4),
    {
        let mut out: Vec<u64> = Vec::new();
        let mut i: usize = 0;
        while i < MAX_INLINE_CAPS
            invariant
                i <= 4,
                out@ == caps_of(self.inline_caps@, i as int),
            decreases 4 - i,
        {
            match self.inline_caps[i] {
                Some(c) => out.push(c),
                None => {},
            }
            i = i + 1;
        }
        out
    }

    /// The blocking flag is set.
    pub fn is_blocking(&self) -> (b: bool)
        ensures
            b == (self.header.flags.0 & 1 == 1),
    {
        self.header.flags.contains(MessageFlags::BLOCKING())
    }

    /// The reply-expected flag is set.
    pub fn expects_reply(&self) -> (b: bool)
        ensures
            b == (self.header.flags.0 & 16 == 16),
    {
        self.header.flags.contains(MessageFlags::REPLY_EXPECTED())
    }
}

/// A deadline in timer ticks.
#[derive(Debug, Clone, Copy, PartialEq, Eq, Structural)]
pub struct Deadline {
    pub ticks: u64,
}

impl Deadline {
    /// A deadline at `ticks`.
    pub fn from_ticks(ticks: u64) -> (d: Self)
        ensures
            d.ticks == ticks,
    {
        Deadline { ticks }
    }

    /// A deadline that never expires before the end of time.
    pub fn never() -> (d: Self)
        ensures
            d.ticks == u64::MAX,
    {
        Deadline { ticks: u64::MAX }
    }

    /// A deadline that has already passed.
    pub fn immediate() -> (d: Self)
        ensures
            d.ticks == 0,
    {
        Deadline { ticks: 0 }
    }

    /// The deadline has passed at `current_ticks`.
    pub fn is_expired(&self, current_ticks: u64) -> (b: bool)
        ensures
            b == (current_ticks >= self.ticks),
    {
        current_ticks >= self.ticks
    }
}

} // verus!
