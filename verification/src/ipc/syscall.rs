//! IPC system calls: creating and destroying channels, sending, receiving,
//! calling and notifying.

use super::channel::{ChannelError, ChannelId, ChannelManager};
use super::endpoint::{EndpointId, ProcessId};
use super::message::{Message, MessageFlags, MessageType};
use super::notification::{NotificationId, NotificationManager};
use super::shared_memory::SharedMemoryManager;
use super::IpcError;
use crate::ids::IdCounter;
use crate::syscall_api::{
    SyscallArgs, SyscallError, EINVAL, ENOSYS, EPERM, SYSCALL_IPC_CREATE, SYSCALL_IPC_DESTROY,
    SYSCALL_IPC_RECV, SYSCALL_IPC_SEND,
};
use vstd::prelude::*;

verus! {

/// The IPC state: channels, notifications, shared memory, and the
/// identifier source for all IPC objects.
pub struct IpcManager {
    pub channels: ChannelManager,
    pub notifications: NotificationManager,
    pub shared_memory: SharedMemoryManager,
    pub ids: IdCounter,
}

impl IpcManager {
    /// The manager's invariant.
    pub open spec fn wf(&self) -> bool {
        self.channels.wf() && self.notifications.wf() && self.shared_memory.wf()
    }

    /// An empty manager whose identifiers start at 1.
    pub fn new() -> (m: Self)
        ensures
            m.wf(),
            m.channels@ == Map::<u64, super::channel::Channel>::empty(),
            m.notifications@ == Map::<u64, super::notification::Notification>::empty(),
            m.channels.count() == 0,
            m.notifications.count() == 0,
            m.shared_memory.region_total() == 0,
            m.shared_memory.regions() == Map::<u64, super::shared_memory::SharedMemoryRegion>::empty(),
            m.shared_memory.mappings() == Map::<u64, super::shared_memory::ShmMapping>::empty(),
            m.shared_memory.next_handle() == 1,
            m.ids.peek() == 1,
    {
        IpcManager {
            channels: ChannelManager::new(),
            notifications: NotificationManager::new(),
            shared_memory: SharedMemoryManager::new(),
            ids: IdCounter::new(),
        }
    }

    /// An empty manager.
    pub fn init() -> (m: Self)
        ensures
            m.wf(),
            m.channels@ == Map::<u64, super::channel::Channel>::empty(),
            m.notifications@ == Map::<u64, super::notification::Notification>::empty(),
            m.channels.count() == 0,
            m.notifications.count() == 0,
            m.shared_memory.region_total() == 0,
            m.shared_memory.regions() == Map::<u64, super::shared_memory::SharedMemoryRegion>::empty(),
            m.shared_memory.mappings() == Map::<u64, super::shared_memory::ShmMapping>::empty(),
            m.shared_memory.next_handle() == 1,
            m.ids.peek() == 1,
    {
        Self::new()
    }
}

/// Initialise the IPC manager.
pub fn init() -> (m: IpcManager)
    ensures
        m.wf(),
        m.channels@ == Map::<u64, super::channel::Channel>::empty(),
        m.notifications@ == Map::<u64, super::notification::Notification>::empty(),
        m.channels.count() == 0,
        m.notifications.count() == 0,
        m.shared_memory.region_total() == 0,
        m.shared_memory.regions() == Map::<u64, super::shared_memory::SharedMemoryRegion>::empty(),
        m.shared_memory.mappings() == Map::<u64, super::shared_memory::ShmMapping>::empty(),
        m.shared_memory.next_handle() == 1,
        m.ids.peek() == 1,
{
    IpcManager::init()
}

/// `ipc_create(target)`: a channel from the caller to `target`, or to itself
/// when `target` is 0; returns the channel identifier.
pub fn handle_ipc_create(manager: &mut IpcManager, args: &SyscallArgs, caller_pid: u64) -> (r: Result<u64, SyscallError>)
    requires
        old(manager).wf(),
    ensures
        final(manager).wf(),
        r == Ok::<u64, SyscallError>(old(manager).ids.peek()),
        final(manager).channels@.contains_key(old(manager).ids.peek()),
        final(manager).channels@[old(manager).ids.peek()].fresh_channel(
            old(manager).ids.peek(),
            ProcessId(caller_pid),
            ProcessId(if args.arg0 == 0 { caller_pid } else { args.arg0 }),
            16,
        ),
        final(manager).channels@ == old(manager).channels@.insert(old(manager).ids.peek(), final(manager).channels@[old(manager).ids.peek()]),
{
    let target_pid = args.arg0;
    let target = if target_pid == 0 { caller_pid } else { target_pid };
    match manager.channels.create_channel(&mut manager.ids, ProcessId::from_raw(caller_pid), ProcessId::from_raw(target)) {
        Ok(id) => Ok(id.as_u64()),
        Err(_) => Err(SyscallError::from_raw(EINVAL)),
    }
}

/// `ipc_destroy(channel)`: always 0.
pub fn handle_ipc_destroy(manager: &mut IpcManager, args: &SyscallArgs) -> (r: Result<u64, SyscallError>)
    requires
        old(manager).wf(),
    ensures
        final(manager).wf(),
        r == Ok::<u64, SyscallError>(0),
        final(manager).channels@ == old(manager).channels@.remove(args.arg0),
{
    match manager.channels.destroy_channel(ChannelId(args.arg0)) {
        Ok(()) => Ok(0),
        Err(_) => Err(SyscallError::from_raw(EINVAL)),
    }
}

/// `ipc_send(channel, _, _, flags, endpoint)`: send a message from the
/// caller with the given flags; `EINVAL` for an unknown channel, `EPERM`
/// when sending fails.
pub fn handle_ipc_send(manager: &mut IpcManager, args: &SyscallArgs, caller_pid: u64) -> (r: Result<u64, SyscallError>)
    requires
        old(manager).wf(),
    ensures
        final(manager).wf(),
        !old(manager).channels@.contains_key(args.arg0) ==> r == Err::<u64, SyscallError>(SyscallError(EINVAL))
            && final(manager).channels@ == old(manager).channels@,
        old(manager).channels@.contains_key(args.arg0) ==> exists|res: Result<(), ChannelError>, msg: Message| {
            &&& msg.header.msg_type == MessageType::Send
            &&& msg.header.sender_pid == caller_pid
            &&& msg.header.flags == MessageFlags((args.arg3 as u8) & 0x1F)
            &&& msg.id.0 == old(manager).ids.peek()
            &&& super::channel::send_outcome(old(manager).channels@[args.arg0], final(manager).channels@[args.arg0], EndpointId(args.arg4), msg, res)
            &&& r == (match res { Ok(()) => Ok::<u64, SyscallError>(0), Err(_) => Err::<u64, SyscallError>(SyscallError(EPERM)) })
        },
{
    let channel_id = args.arg0;
    if !manager.channels.contains(ChannelId(channel_id)) {
        return Err(SyscallError::from_raw(EINVAL));
    }
    let flags = args.arg3 as u8;
    let mut msg = Message::new(&mut manager.ids, MessageType::Send, caller_pid);
    msg.header.flags = MessageFlags::from_bits_truncate(flags);
    match manager.channels.send(ChannelId(channel_id), EndpointId(args.arg4), msg) {
        Some(Ok(())) => Ok(0),
        Some(Err(_)) => Err(SyscallError::from_raw(EPERM)),
        None => Err(SyscallError::from_raw(EINVAL)),
    }
}

/// `ipc_recv(channel, _, _, _, endpoint)`: receive a message; returns its
/// size; `EINVAL` for an unknown channel, `EPERM` when receiving fails.
pub fn handle_ipc_recv(manager: &mut IpcManager, args: &SyscallArgs, caller_pid: u64) -> (r: Result<u64, SyscallError>)
    requires
        old(manager).wf(),
    ensures
        final(manager).wf(),
        !old(manager).channels@.contains_key(args.arg0) ==> r == Err::<u64, SyscallError>(SyscallError(EINVAL))
            && final(manager).channels@ == old(manager).channels@,
        old(manager).channels@.contains_key(args.arg0) ==> exists|res: Result<Message, ChannelError>| {
            &&& super::channel::recv_outcome(old(manager).channels@[args.arg0], final(manager).channels@[args.arg0], EndpointId(args.arg4), res)
            &&& r == (match res { Ok(m) => Ok::<u64, SyscallError>(m.header.size as u64), Err(_) => Err::<u64, SyscallError>(SyscallError(EPERM)) })
        },
{
    match manager.channels.recv(ChannelId(args.arg0), EndpointId(args.arg4)) {
        Some(Ok(m)) => Ok(m.header.size as u64),
        Some(Err(_)) => Err(SyscallError::from_raw(EPERM)),
        None => Err(SyscallError::from_raw(EINVAL)),
    }
}

/// `ipc_call(channel, _, _, _, _, endpoint)`: a blocking call expecting a
/// reply; returns the reply's size; `EINVAL` for an unknown channel,
/// `EPERM` when the call fails.
pub fn handle_ipc_call(manager: &mut IpcManager, args: &SyscallArgs, caller_pid: u64) -> (r: Result<u64, SyscallError>)
    requires
        old(manager).wf(),
    ensures
        final(manager).wf(),
        !old(manager).channels@.contains_key(args.arg0) ==> r == Err::<u64, SyscallError>(SyscallError(EINVAL))
            && final(manager).channels@ == old(manager).channels@,
        old(manager).channels@.contains_key(args.arg0) ==> exists|res: Result<Message, ChannelError>, msg: Message| {
            &&& msg.header.msg_type == MessageType::Call
            &&& msg.header.sender_pid == caller_pid
            &&& msg.header.flags == MessageFlags(0x10u8 | 0x01u8)
            &&& msg.id.0 == old(manager).ids.peek()
            &&& super::channel::call_outcome(old(manager).channels@[args.arg0], final(manager).channels@[args.arg0], EndpointId(args.arg5), msg, res)
            &&& r == (match res { Ok(m) => Ok::<u64, SyscallError>(m.header.size as u64), Err(_) => Err::<u64, SyscallError>(SyscallError(EPERM)) })
        },
{
    let channel_id = args.arg0;
    if !manager.channels.contains(ChannelId(channel_id)) {
        return Err(SyscallError::from_raw(EINVAL));
    }
    let mut msg = Message::new(&mut manager.ids, MessageType::Call, caller_pid);
    msg.header.flags = MessageFlags::REPLY_EXPECTED() | MessageFlags::BLOCKING();
    match manager.channels.call(ChannelId(channel_id), EndpointId(args.arg5), msg) {
        Some(Ok(m)) => Ok(m.header.size as u64),
        Some(Err(_)) => Err(SyscallError::from_raw(EPERM)),
        None => Err(SyscallError::from_raw(EINVAL)),
    }
}

/// `ipc_notify(notification, bits)`: signal; `EINVAL` for an unknown one.
pub fn handle_ipc_notify(manager: &mut IpcManager, args: &SyscallArgs, caller_pid: u64) -> (r: Result<u64, SyscallError>)
    requires
        old(manager).wf(),
    ensures
        final(manager).wf(),
        !old(manager).notifications@.contains_key(args.arg0) ==> r == Err::<u64, SyscallError>(SyscallError(EINVAL))
            && final(manager).notifications@ == old(manager).notifications@,
        old(manager).notifications@.contains_key(args.arg0) ==> r == Ok::<u64, SyscallError>(0)
            && final(manager).notifications@[args.arg0].slots@
                == old(manager).notifications@[args.arg0].slots@.map_values(|w: u64| w | args.arg1),
{
    match manager.notifications.signal(NotificationId(args.arg0), args.arg1) {
        Ok(()) => Ok(0),
        Err(_) => Err(SyscallError::from_raw(EINVAL)),
    }
}

/// Route an IPC system call by number; `ENOSYS` for other numbers.
pub fn dispatch_ipc_syscall(manager: &mut IpcManager, args: &SyscallArgs, caller_pid: u64) -> (r: Result<u64, SyscallError>)
    requires
        old(manager).wf(),
    ensures
        final(manager).wf(),
        args.num != SYSCALL_IPC_CREATE && args.num != SYSCALL_IPC_DESTROY && args.num != SYSCALL_IPC_SEND
            && args.num != SYSCALL_IPC_RECV ==> r == Err::<u64, SyscallError>(SyscallError(ENOSYS))
            && final(manager).channels@ == old(manager).channels@,
        args.num == SYSCALL_IPC_CREATE ==> r == Ok::<u64, SyscallError>(old(manager).ids.peek()),
        args.num == SYSCALL_IPC_DESTROY ==> r == Ok::<u64, SyscallError>(0)
            && final(manager).channels@ == old(manager).channels@.remove(args.arg0),
        (args.num == SYSCALL_IPC_SEND || args.num == SYSCALL_IPC_RECV) && !old(manager).channels@.contains_key(args.arg0)
            ==> r == Err::<u64, SyscallError>(SyscallError(EINVAL)),
{
    if args.num == SYSCALL_IPC_CREATE {
        handle_ipc_create(manager, args, caller_pid)
    } else if args.num == SYSCALL_IPC_DESTROY {
        handle_ipc_destroy(manager, args)
    } else if args.num == SYSCALL_IPC_SEND {
        handle_ipc_send(manager, args, caller_pid)
    } else if args.num == SYSCALL_IPC_RECV {
        handle_ipc_recv(manager, args, caller_pid)
    } else {
        Err(SyscallError::from_raw(ENOSYS))
    }
}

/// Create a channel from a newly numbered caller process to `target_pid`.
pub fn sys_ipc_create(manager: &mut IpcManager, target_pid: u64) -> (r: Result<u64, IpcError>)
    requires
        old(manager).wf(),
    ensures
        final(manager).wf(),
        ({
            let caller = old(manager).ids.peek();
            let cid = super::channel::next_of(caller);
            &&& r == Ok::<u64, IpcError>(cid)
            &&& final(manager).channels@.contains_key(cid)
            &&& final(manager).channels@[cid].fresh_channel(cid, ProcessId(caller), ProcessId(target_pid), 16)
            &&& final(manager).channels@ == old(manager).channels@.insert(cid, final(manager).channels@[cid])
        }),
{
    let caller = ProcessId::new(&mut manager.ids);
    match manager.channels.create_channel(&mut manager.ids, caller, ProcessId::from_raw(target_pid)) {
        Ok(id) => Ok(id.as_u64()),
        Err(e) => Err(IpcError::from(e)),
    }
}

/// Destroy a channel.
pub fn sys_ipc_destroy(manager: &mut IpcManager, channel_id: u64) -> (r: Result<(), IpcError>)
    requires
        old(manager).wf(),
    ensures
        final(manager).wf(),
        r == Ok::<(), IpcError>(()),
        final(manager).channels@ == old(manager).channels@.remove(channel_id),
        final(manager).channels.count() == old(manager).channels.count() - (if old(manager).channels@.contains_key(channel_id) { 1int } else { 0int }),
{
    super::destroy_channel(manager, channel_id)
}

/// Send a copy of `msg` on a channel.
pub fn sys_ipc_send(manager: &mut IpcManager, channel_id: u64, endpoint_id: u64, msg: &Message) -> (r: Result<(), IpcError>)
    requires
        old(manager).wf(),
    ensures
        final(manager).wf(),
        !old(manager).channels@.contains_key(channel_id) ==> r == Err::<(), IpcError>(IpcError::InvalidEndpoint)
            && final(manager).channels@ == old(manager).channels@,
        old(manager).channels@.contains_key(channel_id) ==> exists|res: Result<(), ChannelError>| {
            &&& super::channel::send_outcome(old(manager).channels@[channel_id], final(manager).channels@[channel_id], EndpointId(endpoint_id), *msg, res)
            &&& r == (match res { Ok(()) => Ok::<(), IpcError>(()), Err(_) => Err::<(), IpcError>(IpcError::ChannelClosed) })
        },
{
    super::send_message(manager, channel_id, endpoint_id, *msg)
}

/// Receive on a channel.
pub fn sys_ipc_recv(manager: &mut IpcManager, channel_id: u64, endpoint_id: u64) -> (r: Result<Message, IpcError>)
    requires
        old(manager).wf(),
    ensures
        final(manager).wf(),
        !old(manager).channels@.contains_key(channel_id) ==> r == Err::<Message, IpcError>(IpcError::InvalidEndpoint)
            && final(manager).channels@ == old(manager).channels@,
        old(manager).channels@.contains_key(channel_id) ==> exists|res: Result<Message, ChannelError>| {
            &&& super::channel::recv_outcome(old(manager).channels@[channel_id], final(manager).channels@[channel_id], EndpointId(endpoint_id), res)
            &&& r == (match res { Ok(m) => Ok::<Message, IpcError>(m), Err(_) => Err::<Message, IpcError>(IpcError::ChannelClosed) })
        },
{
    super::recv_message(manager, channel_id, endpoint_id)
}

/// Make a call on a channel with a copy of `request`.
pub fn sys_ipc_call(manager: &mut IpcManager, channel_id: u64, endpoint_id: u64, request: &Message) -> (r: Result<Message, IpcError>)
    requires
        old(manager).wf(),
    ensures
        final(manager).wf(),
        !old(manager).channels@.contains_key(channel_id) ==> r == Err::<Message, IpcError>(IpcError::InvalidEndpoint)
            && final(manager).channels@ == old(manager).channels@,
        old(manager).channels@.contains_key(channel_id) ==> exists|res: Result<Message, ChannelError>| {
            &&& super::channel::call_outcome(old(manager).channels@[channel_id], final(manager).channels@[channel_id], EndpointId(endpoint_id), *request, res)
            &&& r == (match res { Ok(m) => Ok::<Message, IpcError>(m), Err(_) => Err::<Message, IpcError>(IpcError::Timeout) })
        },
{
    super::call(manager, channel_id, endpoint_id, *request)
}

/// Signal bits on a notification.
pub fn sys_ipc_notify(manager: &mut IpcManager, notification_id: u64, bits: u64) -> (r: Result<(), IpcError>)
    requires
        old(manager).wf(),
    ensures
        final(manager).wf(),
        !old(manager).notifications@.contains_key(notification_id) ==> r == Err::<(), IpcError>(IpcError::InvalidEndpoint),
        old(manager).notifications@.contains_key(notification_id) ==> r == Ok::<(), IpcError>(())
            && final(manager).notifications@[notification_id].slots@
                == old(manager).notifications@[notification_id].slots@.map_values(|w: u64| w | bits),
{
    super::signal_notification(manager, notification_id, bits)
}

/// One step of the wait call: an unknown notification is an invalid
/// endpoint; otherwise the pending bits of `mask` are consumed, `None`
/// meaning none is pending yet and the caller waits and steps again.
pub fn sys_ipc_wait_step(manager: &mut IpcManager, notification_id: u64, mask: u64) -> (r: Result<Option<u64>, IpcError>)
    requires
        old(manager).wf(),
    ensures
        final(manager).wf(),
        final(manager).channels == old(manager).channels,
        final(manager).shared_memory == old(manager).shared_memory,
        final(manager).ids == old(manager).ids,
        final(manager).notifications@.dom() == old(manager).notifications@.dom(),
        !old(manager).notifications@.contains_key(notification_id) ==> r == Err::<Option<u64>, IpcError>(IpcError::InvalidEndpoint)
            && final(manager).notifications@ == old(manager).notifications@,
        old(manager).notifications@.contains_key(notification_id) ==> {
            let n = old(manager).notifications@[notification_id];
            let p = super::notification::pending_bits(n.slots@, mask);
            &&& r == Ok::<Option<u64>, IpcError>(if p == 0 { None::<u64> } else { Some(p) })
            &&& final(manager).notifications@[notification_id].slots@ == (if p == 0 { n.slots@ } else { n.slots@.map_values(|w: u64| w & !p) })
            &&& final(manager).notifications@[notification_id].id == n.id
            &&& final(manager).notifications@[notification_id].process == n.process
            &&& forall|k: u64| k != notification_id && #[trigger] old(manager).notifications@.contains_key(k)
                ==> final(manager).notifications@[k] == old(manager).notifications@[k]
        },
{
    match manager.notifications.try_wait(NotificationId(notification_id), mask) {
        Some(res) => Ok(res),
        None => Err(IpcError::InvalidEndpoint),
    }
}

} // verus!
