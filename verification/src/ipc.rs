//! Inter-process communication: messages, endpoints, channels, queues,
//! notifications and shared memory, with the IPC system calls.

pub mod channel;
pub mod endpoint;
pub mod message;
pub mod notification;
pub mod queue;
pub mod shared_memory;
pub mod syscall;

use channel::{ChannelError, ChannelId};
use endpoint::{EndpointId, ProcessId};
use message::Message;
use notification::NotificationId;
use queue::QueueError;
use shared_memory::{MemoryRights, ShareMode, ShmError, ShmId};
use syscall::IpcManager;
use vstd::prelude::*;

verus! {

/// IPC errors.
#[derive(Debug, Clone, Copy, PartialEq, Eq, Structural)]
pub enum IpcError {
    InvalidEndpoint,
    ChannelClosed,
    QueueFull,
    QueueEmpty,
    Timeout,
    PermissionDenied,
    ProcessNotFound,
    CreationFailed,
    OutOfMemory,
}

/// The description of each IPC error.
pub open spec fn ipc_error_text(e: IpcError) -> Seq<char> {
    match e {
        IpcError::InvalidEndpoint => "Invalid endpoint"@,
        IpcError::ChannelClosed => "Channel closed"@,
        IpcError::QueueFull => "Queue full"@,
        IpcError::QueueEmpty => "Queue empty"@,
        IpcError::Timeout => "Timeout"@,
        IpcError::PermissionDenied => "Permission denied"@,
        IpcError::ProcessNotFound => "Process not found"@,
        IpcError::CreationFailed => "Channel creation failed"@,
        IpcError::OutOfMemory => "Out of memory"@,
    }
}

impl IpcError {
    /// The human-readable description of the error.
    pub fn message(&self) -> (m: &'static str)
        ensures
            m@ == ipc_error_text(*self),
    {
        match self {
            IpcError::InvalidEndpoint => "Invalid endpoint",
            IpcError::ChannelClosed => "Channel closed",
            IpcError::QueueFull => "Queue full",
            IpcError::QueueEmpty => "Queue empty",
            IpcError::Timeout => "Timeout",
            IpcError::PermissionDenied => "Permission denied",
            IpcError::ProcessNotFound => "Process not found",
            IpcError::CreationFailed => "Channel creation failed",
            IpcError::OutOfMemory => "Out of memory",
        }
    }
}

/// The IPC error a channel error is reported as.
pub open spec fn ipc_error_of_channel(e: ChannelError) -> IpcError {
    match e {
        ChannelError::InvalidEndpoint => IpcError::InvalidEndpoint,
        ChannelError::QueueClosed => IpcError::ChannelClosed,
        ChannelError::QueueFull => IpcError::QueueFull,
        ChannelError::QueueEmpty => IpcError::QueueEmpty,
        ChannelError::Timeout => IpcError::Timeout,
        ChannelError::PermissionDenied => IpcError::PermissionDenied,
        ChannelError::CreationFailed => IpcError::CreationFailed,
        ChannelError::ProcessNotFound => IpcError::ProcessNotFound,
    }
}

impl From<ChannelError> for IpcError {
    fn from(e: ChannelError) -> (r: IpcError) {
        match e {
            ChannelError::InvalidEndpoint => IpcError::InvalidEndpoint,
            ChannelError::QueueClosed => IpcError::ChannelClosed,
            ChannelError::QueueFull => IpcError::QueueFull,
            ChannelError::QueueEmpty => IpcError::QueueEmpty,
            ChannelError::Timeout => IpcError::Timeout,
            ChannelError::PermissionDenied => IpcError::PermissionDenied,
            ChannelError::CreationFailed => IpcError::CreationFailed,
            ChannelError::ProcessNotFound => IpcError::ProcessNotFound,
        }
    }
}

impl vstd::std_specs::convert::FromSpecImpl<ChannelError> for IpcError {
    open spec fn obeys_from_spec() -> bool {
        true
    }

    open spec fn from_spec(e: ChannelError) -> IpcError {
        ipc_error_of_channel(e)
    }
}

/// The IPC error a queue error is reported as.
pub open spec fn ipc_error_of_queue(e: QueueError) -> IpcError {
    match e {
        QueueError::Full => IpcError::QueueFull,
        QueueError::Empty => IpcError::QueueEmpty,
        QueueError::Closed => IpcError::ChannelClosed,
        QueueError::InvalidCapacity => IpcError::CreationFailed,
    }
}

impl From<QueueError> for IpcError {
    fn from(e: QueueError) -> (r: IpcError) {
        match e {
            QueueError::Full => IpcError::QueueFull,
            QueueError::Empty => IpcError::QueueEmpty,
            QueueError::Closed => IpcError::ChannelClosed,
            QueueError::InvalidCapacity => IpcError::CreationFailed,
        }
    }
}

impl vstd::std_specs::convert::FromSpecImpl<QueueError> for IpcError {
    open spec fn obeys_from_spec() -> bool {
        true
    }

    open spec fn from_spec(e: QueueError) -> IpcError {
        ipc_error_of_queue(e)
    }
}

/// The IPC error a shared memory error is reported as.
pub open spec fn ipc_error_of_shm(e: ShmError) -> IpcError {
    match e {
        ShmError::RegionNotFound => IpcError::InvalidEndpoint,
        ShmError::MappingFailed => IpcError::CreationFailed,
        ShmError::InvalidHandle => IpcError::InvalidEndpoint,
        ShmError::PermissionDenied => IpcError::PermissionDenied,
        ShmError::OutOfMemory => IpcError::OutOfMemory,
    }
}

impl From<ShmError> for IpcError {
    fn from(e: ShmError) -> (r: IpcError) {
        match e {
            ShmError::RegionNotFound => IpcError::InvalidEndpoint,
            ShmError::MappingFailed => IpcError::CreationFailed,
            ShmError::InvalidHandle => IpcError::InvalidEndpoint,
            ShmError::PermissionDenied => IpcError::PermissionDenied,
            ShmError::OutOfMemory => IpcError::OutOfMemory,
        }
    }
}

impl vstd::std_specs::convert::FromSpecImpl<ShmError> for IpcError {
    open spec fn obeys_from_spec() -> bool {
        true
    }

    open spec fn from_spec(e: ShmError) -> IpcError {
        ipc_error_of_shm(e)
    }
}

/// Initialise the IPC subsystem: a fresh manager.
pub fn init() -> (m: IpcManager)
    ensures
        m.wf(),
        m.channels@ == Map::<u64, channel::Channel>::empty(),
        m.notifications@ == Map::<u64, notification::Notification>::empty(),
        m.channels.count() == 0,
        m.notifications.count() == 0,
        m.shared_memory.region_total() == 0,
        m.shared_memory.regions() == Map::<u64, shared_memory::SharedMemoryRegion>::empty(),
        m.shared_memory.mappings() == Map::<u64, shared_memory::ShmMapping>::empty(),
        m.shared_memory.next_handle() == 1,
        m.ids.peek() == 1,
{
    syscall::init()
}

/// Create a channel between two processes; returns its identifier.
pub fn create_channel(manager: &mut IpcManager, process_a: u64, process_b: u64) -> (r: Result<u64, IpcError>)
    requires
        old(manager).wf(),
    ensures
        final(manager).wf(),
        r == Ok::<u64, IpcError>(old(manager).ids.peek()),
        final(manager).channels@.contains_key(old(manager).ids.peek()),
        final(manager).channels@[old(manager).ids.peek()].fresh_channel(old(manager).ids.peek(), ProcessId(process_a), ProcessId(process_b), 16),
        final(manager).channels@ == old(manager).channels@.insert(old(manager).ids.peek(), final(manager).channels@[old(manager).ids.peek()]),
        final(manager).channels.count() == old(manager).channels.count() + (if old(manager).channels@.contains_key(old(manager).ids.peek()) { 0int } else { 1int }),
        final(manager).notifications == old(manager).notifications,
{
    match manager.channels.create_channel(&mut manager.ids, ProcessId::from_raw(process_a), ProcessId::from_raw(process_b)) {
        Ok(id) => Ok(id.as_u64()),
        Err(e) => Err(IpcError::from(e)),
    }
}

/// Destroy a channel; unknown identifiers are ignored.
pub fn destroy_channel(manager: &mut IpcManager, channel_id: u64) -> (r: Result<(), IpcError>)
    requires
        old(manager).wf(),
    ensures
        final(manager).wf(),
        r == Ok::<(), IpcError>(()),
        final(manager).channels@ == old(manager).channels@.remove(channel_id),
        final(manager).channels.count() == old(manager).channels.count() - (if old(manager).channels@.contains_key(channel_id) { 1int } else { 0int }),
        final(manager).ids == old(manager).ids,
{
    match manager.channels.destroy_channel(ChannelId(channel_id)) {
        Ok(()) => Ok(()),
        Err(e) => Err(IpcError::from(e)),
    }
}

/// Send a message on a channel from one of its endpoints: `InvalidEndpoint`
/// for an unknown channel, `ChannelClosed` for any send failure.
pub fn send_message(manager: &mut IpcManager, channel_id: u64, endpoint_id: u64, msg: Message) -> (r: Result<(), IpcError>)
    requires
        old(manager).wf(),
    ensures
        final(manager).wf(),
        !old(manager).channels@.contains_key(channel_id) ==> r == Err::<(), IpcError>(IpcError::InvalidEndpoint)
            && final(manager).channels@ == old(manager).channels@,
        old(manager).channels@.contains_key(channel_id) ==> exists|res: Result<(), ChannelError>| {
            &&& channel::send_outcome(old(manager).channels@[channel_id], final(manager).channels@[channel_id], EndpointId(endpoint_id), msg, res)
            &&& r == (match res { Ok(()) => Ok::<(), IpcError>(()), Err(_) => Err::<(), IpcError>(IpcError::ChannelClosed) })
        },        final(manager).channels@.dom() == old(manager).channels@.dom(),
        forall|k: u64| k != channel_id && #[trigger] old(manager).channels@.contains_key(k) ==> final(manager).channels@[k] == old(manager).channels@[k],
{
    match manager.channels.send(ChannelId(channel_id), EndpointId(endpoint_id), msg) {
        Some(Ok(())) => Ok(()),
        Some(Err(_)) => Err(IpcError::ChannelClosed),
        None => Err(IpcError::InvalidEndpoint),
    }
}

/// Receive a message on a channel at one of its endpoints: `InvalidEndpoint`
/// for an unknown channel, `ChannelClosed` for any receive failure.
pub fn recv_message(manager: &mut IpcManager, channel_id: u64, endpoint_id: u64) -> (r: Result<Message, IpcError>)
    requires
        old(manager).wf(),
    ensures
        final(manager).wf(),
        !old(manager).channels@.contains_key(channel_id) ==> r == Err::<Message, IpcError>(IpcError::InvalidEndpoint)
            && final(manager).channels@ == old(manager).channels@,
        old(manager).channels@.contains_key(channel_id) ==> exists|res: Result<Message, ChannelError>| {
            &&& channel::recv_outcome(old(manager).channels@[channel_id], final(manager).channels@[channel_id], EndpointId(endpoint_id), res)
            &&& r == (match res { Ok(m) => Ok::<Message, IpcError>(m), Err(_) => Err::<Message, IpcError>(IpcError::ChannelClosed) })
        },        final(manager).channels@.dom() == old(manager).channels@.dom(),
        forall|k: u64| k != channel_id && #[trigger] old(manager).channels@.contains_key(k) ==> final(manager).channels@[k] == old(manager).channels@[k],
{
    match manager.channels.recv(ChannelId(channel_id), EndpointId(endpoint_id)) {
        Some(Ok(m)) => Ok(m),
        Some(Err(_)) => Err(IpcError::ChannelClosed),
        None => Err(IpcError::InvalidEndpoint),
    }
}

/// RPC-style call on a channel: `InvalidEndpoint` for an unknown channel,
/// `Timeout` for any failure of the call.
pub fn call(manager: &mut IpcManager, channel_id: u64, endpoint_id: u64, request: Message) -> (r: Result<Message, IpcError>)
    requires
        old(manager).wf(),
    ensures
        final(manager).wf(),
        !old(manager).channels@.contains_key(channel_id) ==> r == Err::<Message, IpcError>(IpcError::InvalidEndpoint)
            && final(manager).channels@ == old(manager).channels@,
        old(manager).channels@.contains_key(channel_id) ==> exists|res: Result<Message, ChannelError>| {
            &&& channel::call_outcome(old(manager).channels@[channel_id], final(manager).channels@[channel_id], EndpointId(endpoint_id), request, res)
            &&& r == (match res { Ok(m) => Ok::<Message, IpcError>(m), Err(_) => Err::<Message, IpcError>(IpcError::Timeout) })
        },
        final(manager).channels@.dom() == old(manager).channels@.dom(),
        forall|k: u64| k != channel_id && #[trigger] old(manager).channels@.contains_key(k) ==> final(manager).channels@[k] == old(manager).channels@[k],
{
    match manager.channels.call(ChannelId(channel_id), EndpointId(endpoint_id), request) {
        Some(Ok(m)) => Ok(m),
        Some(Err(_)) => Err(IpcError::Timeout),
        None => Err(IpcError::InvalidEndpoint),
    }
}

/// Create a notification for a process; returns its identifier.
pub fn create_notification(manager: &mut IpcManager, process_id: u64) -> (id: u64)
    requires
        old(manager).wf(),
    ensures
        final(manager).wf(),
        id == old(manager).ids.peek(),
        final(manager).notifications@.contains_key(id),
        final(manager).notifications@[id].process == ProcessId(process_id),
        final(manager).notifications@[id].slots@ == seq![0u64, 0u64, 0u64, 0u64],
        final(manager).notifications.count() == old(manager).notifications.count() + (if old(manager).notifications@.contains_key(id) { 0int } else { 1int }),
        final(manager).channels@ == old(manager).channels@,
{
    let n = manager.notifications.create_notification(&mut manager.ids, ProcessId::from_raw(process_id));
    n.as_u64()
}

/// Signal bits on a notification: `InvalidEndpoint` for an unknown one.
pub fn signal_notification(manager: &mut IpcManager, notification_id: u64, bits: u64) -> (r: Result<(), IpcError>)
    requires
        old(manager).wf(),
    ensures
        final(manager).wf(),
        !old(manager).notifications@.contains_key(notification_id) ==> r == Err::<(), IpcError>(IpcError::InvalidEndpoint)
            && final(manager).notifications@ == old(manager).notifications@,
        old(manager).notifications@.contains_key(notification_id) ==> r == Ok::<(), IpcError>(())
            && final(manager).notifications@[notification_id].slots@
                == old(manager).notifications@[notification_id].slots@.map_values(|w: u64| w | bits),
        final(manager).channels@ == old(manager).channels@,
{
    match manager.notifications.signal(NotificationId(notification_id), bits) {
        Ok(()) => Ok(()),
        Err(_) => Err(IpcError::InvalidEndpoint),
    }
}

/// Create a read-write shared memory region of `page_count` pages owned by
/// a process; returns its identifier.
pub fn create_shared_memory(manager: &mut IpcManager, owner_id: u64, page_count: usize) -> (r: Result<u64, IpcError>)
    requires
        old(manager).wf(),
        page_count * 4096 <= usize::MAX,
    ensures
        final(manager).wf(),
        r == Ok::<u64, IpcError>(old(manager).ids.peek()),
        final(manager).shared_memory.regions().contains_key(old(manager).ids.peek()),
        final(manager).shared_memory.regions()[old(manager).ids.peek()].page_count == page_count,
        final(manager).shared_memory.regions()[old(manager).ids.peek()].owner == ProcessId(owner_id),
        final(manager).shared_memory.regions()[old(manager).ids.peek()].rights == MemoryRights(1u32 | 2u32),
        final(manager).shared_memory.regions()[old(manager).ids.peek()].share_mode == ShareMode::ReadWrite,
        final(manager).channels@ == old(manager).channels@,
{
    match manager.shared_memory.create_region(
        &mut manager.ids,
        page_count,
        MemoryRights::READ() | MemoryRights::WRITE(),
        ShareMode::ReadWrite,
        ProcessId::from_raw(owner_id),
    ) {
        Ok(id) => Ok(id.as_u64()),
        Err(_) => Err(IpcError::OutOfMemory),
    }
}

/// Destroy a shared memory region: `InvalidEndpoint` for an unknown one.
pub fn destroy_shared_memory(manager: &mut IpcManager, region_id: u64) -> (r: Result<(), IpcError>)
    requires
        old(manager).wf(),
    ensures
        final(manager).wf(),
        final(manager).shared_memory.regions() == old(manager).shared_memory.regions().remove(region_id),
        r == (if old(manager).shared_memory.regions().contains_key(region_id) { Ok::<(), IpcError>(()) } else { Err::<(), IpcError>(IpcError::InvalidEndpoint) }),
{
    match manager.shared_memory.destroy_region(ShmId(region_id)) {
        Ok(()) => Ok(()),
        Err(_) => Err(IpcError::InvalidEndpoint),
    }
}

/// Counts of the IPC objects.
pub fn get_stats(manager: &IpcManager) -> (s: IpcStats)
    ensures
        s.channels == manager.channels.count(),
        s.notifications == manager.notifications.count(),
        s.shared_memory_regions == manager.shared_memory.region_total(),
{
    IpcStats {
        channels: manager.channels.channel_count(),
        notifications: manager.notifications.notification_count(),
        shared_memory_regions: manager.shared_memory.region_count(),
    }
}

/// IPC system statistics.
#[derive(Debug, Clone, Copy, PartialEq, Eq, Structural)]
pub struct IpcStats {
    pub channels: usize,
    pub notifications: usize,
    pub shared_memory_regions: usize,
}

} // verus!
