use sigrun::ids::IdCounter;
use sigrun::ipc::channel::{Channel, ChannelError, ChannelId, ChannelManager};
use sigrun::ipc::endpoint::{Endpoint, EndpointInfo, EndpointRights, ProcessId};
use sigrun::ipc::message::{Deadline, Message, MessageType};
use sigrun::ipc::notification::{Notification, NotificationBits, NotificationManager};
use sigrun::ipc::queue::{MessageQueue, QueueError};
use sigrun::ipc::shared_memory::{MemoryRights, ShareMode, SharedMemoryManager, SharedMemoryRegion, VirtAddr};
use sigrun::ipc::syscall::{sys_ipc_create, sys_ipc_destroy, sys_ipc_notify, sys_ipc_wait_step, IpcManager};
use sigrun::ipc::{
    create_channel, create_notification, destroy_channel, get_stats, init, signal_notification, IpcError,
};

#[test]
fn test_channel_creation() {
    let mut ids = IdCounter::new();
    let p1 = ProcessId::new(&mut ids);
    let p2 = ProcessId::new(&mut ids);
    let channel = Channel::create(&mut ids, p1, p2).unwrap();
    assert!(!channel.is_closed());
}

#[test]
fn test_channel_send_recv() {
    let mut ids = IdCounter::new();
    let p1 = ProcessId::new(&mut ids);
    let p2 = ProcessId::new(&mut ids);
    let mut channel = Channel::create(&mut ids, p1, p2).unwrap();
    let msg = Message::send(&mut ids, p1.as_u64());
    let _ep_a = channel.endpoint_a.endpoint.id;
    channel.send_from_a(msg).unwrap();
    let received = channel.recv_at_b().unwrap();
    assert_eq!(received.header.sender_pid, p1.as_u64());
}

#[test]
fn test_channel_close() {
    let mut ids = IdCounter::new();
    let p1 = ProcessId::new(&mut ids);
    let p2 = ProcessId::new(&mut ids);
    let mut channel = Channel::create(&mut ids, p1, p2).unwrap();
    channel.close();
    assert!(channel.is_closed());
}

#[test]
fn test_process_id_generation() {
    let mut ids = IdCounter::new();
    let p1 = ProcessId::new(&mut ids);
    let p2 = ProcessId::new(&mut ids);
    assert_ne!(p1, p2);
}

#[test]
fn test_endpoint_creation() {
    let mut ids = IdCounter::new();
    let pid = ProcessId::new(&mut ids);
    let ep = Endpoint::for_process(&mut ids, pid);
    assert_eq!(ep.process, pid);
}

#[test]
fn test_endpoint_rights() {
    let mut ids = IdCounter::new();
    let pid = ProcessId::new(&mut ids);
    let ep = Endpoint::for_process(&mut ids, pid);
    let info = EndpointInfo::new(ep, EndpointRights::FULL(), 1);
    assert!(info.can_send());
    assert!(info.can_recv());
    assert!(info.can_grant());
}

#[test]
fn test_message_creation() {
    let mut ids = IdCounter::new();
    let msg = Message::call(&mut ids, 1);
    assert_eq!(msg.header.msg_type, MessageType::Call);
    assert!(msg.expects_reply());
    assert!(msg.is_blocking());
}

#[test]
fn test_message_payload() {
    let mut ids = IdCounter::new();
    let data = [1u8, 2, 3, 4, 5];
    let msg = Message::send(&mut ids, 1).with_payload(&data);
    assert_eq!(msg.payload_len, 5);
    assert_eq!(msg.payload(), &data);
}

#[test]
fn test_message_caps() {
    let mut ids = IdCounter::new();
    let msg = Message::send(&mut ids, 1).with_cap(42).with_cap(100);
    assert_eq!(msg.header.cap_count, 2);
    let caps: Vec<u64> = msg.caps();
    assert_eq!(caps, vec![42, 100]);
}

#[test]
fn message_with_caps_adds_first_four_in_order() {
    let mut ids = IdCounter::new();
    let msg = Message::send(&mut ids, 1).with_caps(&[1, 2, 3, 4, 5]);
    assert_eq!(msg.caps(), vec![1, 2, 3, 4]);
    assert_eq!(msg.header.cap_count, 4);
    let msg = Message::send(&mut ids, 1).with_cap(9).with_caps(&[7, 8, 6, 5]);
    assert_eq!(msg.caps(), vec![9, 7, 8, 6]);
    assert_eq!(msg.header.cap_count, 4);
    let msg = Message::send(&mut ids, 1).with_caps(&[]);
    assert_eq!(msg.header.cap_count, 0);
    assert!(msg.caps().is_empty());
}

#[test]
fn message_test_deadline() {
    let d = Deadline::never();
    assert!(!d.is_expired(u64::MAX - 1));
    let d = Deadline::immediate();
    assert!(d.is_expired(0));
}

#[test]
fn test_ipc_init() {
    let manager = init();
    let stats = get_stats(&manager);
    assert_eq!(stats.channels, 0);
}

#[test]
fn test_channel_lifecycle() {
    let mut manager = init();
    let pid1 = 1u64;
    let pid2 = 2u64;
    let channel_id = create_channel(&mut manager, pid1, pid2).unwrap();
    assert!(channel_id > 0);
    assert_eq!(get_stats(&manager).channels, 1);
    destroy_channel(&mut manager, channel_id).unwrap();
    assert_eq!(get_stats(&manager).channels, 0);
}

#[test]
fn test_notification_lifecycle() {
    let mut manager = init();
    let pid = 1u64;
    let notif_id = create_notification(&mut manager, pid);
    assert!(notif_id > 0);
    signal_notification(&mut manager, notif_id, NotificationBits::BIT_0().bits()).unwrap();
}

#[test]
fn test_notification_signal() {
    let mut ids = IdCounter::new();
    let process = ProcessId::new(&mut ids);
    let mut notification = Notification::new(&mut ids, process);
    notification.signal(NotificationBits::BIT_0().bits() | NotificationBits::BIT_1().bits());
    assert!(notification.is_signaled(0));
    assert!(notification.is_signaled(1));
    assert!(!notification.is_signaled(2));
}

#[test]
fn test_notification_wait() {
    let mut ids = IdCounter::new();
    let process = ProcessId::new(&mut ids);
    let mut notification = Notification::new(&mut ids, process);
    notification.signal(NotificationBits::BIT_0().bits());
    let result = notification.try_wait(NotificationBits::BIT_0().bits());
    assert_eq!(result, Some(NotificationBits::BIT_0().bits()));
}

#[test]
fn test_notification_clear() {
    let mut ids = IdCounter::new();
    let process = ProcessId::new(&mut ids);
    let mut notification = Notification::new(&mut ids, process);
    notification.signal(NotificationBits::BIT_0().bits() | NotificationBits::BIT_1().bits());
    notification.clear(NotificationBits::BIT_0().bits());
    assert!(!notification.is_signaled(0));
    assert!(notification.is_signaled(1));
}

#[test]
fn test_notification_manager() {
    let mut ids = IdCounter::new();
    let mut manager = NotificationManager::new();
    let process = ProcessId::new(&mut ids);
    let id = manager.create_notification(&mut ids, process);
    assert_eq!(manager.notification_count(), 1);
    manager.signal(id, NotificationBits::BIT_0().bits()).unwrap();
    assert!(manager.get_notification(id).unwrap().is_signaled(0));
    manager.destroy_notification(id).unwrap();
    assert_eq!(manager.notification_count(), 0);
}

#[test]
fn test_queue_basic() {
    let mut ids = IdCounter::new();
    let mut queue = MessageQueue::new(16).unwrap();
    let msg = Message::new(&mut ids, MessageType::Send, 1);
    queue.try_push(msg).unwrap();
    assert_eq!(queue.len(), 1);
    assert!(!queue.is_empty());
    let received = queue.try_pop().unwrap();
    assert_eq!(received.header.msg_type, MessageType::Send);
    assert_eq!(queue.len(), 0);
}

#[test]
fn queue_pops_in_push_order_across_wrap() {
    let mut ids = IdCounter::new();
    let mut queue = MessageQueue::new(4).unwrap();
    for pid in 1..=3u64 {
        queue.try_push(Message::new(&mut ids, MessageType::Send, pid)).unwrap();
    }
    assert_eq!(queue.try_pop().unwrap().header.sender_pid, 1);
    for pid in 4..=5u64 {
        queue.try_push(Message::new(&mut ids, MessageType::Send, pid)).unwrap();
    }
    let order: Vec<u64> = (0..4).map(|_| queue.try_pop().unwrap().header.sender_pid).collect();
    assert_eq!(order, vec![2, 3, 4, 5]);
    assert!(matches!(queue.try_pop(), Err(QueueError::Empty)));
}

#[test]
fn test_queue_full() {
    let mut ids = IdCounter::new();
    let mut queue = MessageQueue::new(4).unwrap();
    for i in 0..4 {
        let msg = Message::new(&mut ids, MessageType::Send, i as u64);
        queue.try_push(msg).unwrap();
    }
    let msg = Message::new(&mut ids, MessageType::Send, 99);
    assert!(matches!(queue.try_push(msg), Err(QueueError::Full)));
}

#[test]
fn test_queue_close() {
    let mut ids = IdCounter::new();
    let mut queue = MessageQueue::new(4).unwrap();
    let msg = Message::new(&mut ids, MessageType::Send, 1);
    queue.try_push(msg).unwrap();
    queue.close();
    let msg = Message::new(&mut ids, MessageType::Send, 2);
    assert!(matches!(queue.try_push(msg), Err(QueueError::Closed)));
    let _ = queue.try_pop().unwrap();
    assert!(matches!(queue.try_pop(), Err(QueueError::Closed)));
}

#[test]
fn test_shm_region_creation() {
    let mut ids = IdCounter::new();
    let owner = ProcessId::new(&mut ids);
    let region = SharedMemoryRegion::with_size(&mut ids, 4, owner);
    assert_eq!(region.page_count, 4);
    assert_eq!(region.size_bytes(), 16384);
}

#[test]
fn test_shm_region_derive() {
    let mut ids = IdCounter::new();
    let owner = ProcessId::new(&mut ids);
    let mut region = SharedMemoryRegion::with_size(&mut ids, 2, owner);
    let derived = region.derive(&mut ids, MemoryRights::READ(), ShareMode::ReadOnly);
    assert!(derived.rights.contains(MemoryRights::READ()));
    assert!(!derived.rights.contains(MemoryRights::WRITE()));
}

#[test]
fn test_shm_manager() {
    let mut ids = IdCounter::new();
    let mut manager = SharedMemoryManager::new();
    let owner = ProcessId::new(&mut ids);
    let region_id = manager
        .create_region(&mut ids, 4, MemoryRights::READ() | MemoryRights::WRITE(), ShareMode::ReadWrite, owner)
        .unwrap();
    assert_eq!(manager.region_count(), 1);
    let region = manager.get_region(region_id).unwrap().clone();
    let handle = manager.map_region(&region, owner, VirtAddr::new(0x10000000)).unwrap();
    assert_eq!(manager.mapping_count(), 1);
    manager.unmap(handle).unwrap();
    assert_eq!(manager.mapping_count(), 0);
}

#[test]
fn test_ipc_manager_initialization() {
    let manager = IpcManager::init();
    assert_eq!(manager.channels.channel_count(), 0);
}

#[test]
fn test_sys_ipc_create() {
    let mut manager = IpcManager::init();
    let pid = ProcessId::new(&mut manager.ids).as_u64();
    let channel_id = sys_ipc_create(&mut manager, pid).unwrap();
    assert!(channel_id > 0);
    assert_eq!(manager.channels.channel_count(), 1);
}

#[test]
fn test_sys_ipc_destroy() {
    let mut manager = IpcManager::init();
    let pid = ProcessId::new(&mut manager.ids).as_u64();
    let channel_id = sys_ipc_create(&mut manager, pid).unwrap();
    sys_ipc_destroy(&mut manager, channel_id).unwrap();
    assert_eq!(manager.channels.channel_count(), 0);
}

#[test]
fn test_sys_ipc_notify() {
    let mut manager = IpcManager::init();
    let process = ProcessId::new(&mut manager.ids);
    let id = manager.notifications.create_notification(&mut manager.ids, process);
    sys_ipc_notify(&mut manager, id.as_u64(), NotificationBits::BIT_0().bits()).unwrap();
    assert!(manager.notifications.get_notification(id).unwrap().is_signaled(0));
}

// Further scenarios.

#[test]
fn channel_reply_goes_back_to_the_caller() {
    let mut ids = IdCounter::new();
    let p1 = ProcessId::new(&mut ids);
    let p2 = ProcessId::new(&mut ids);
    let mut channel = Channel::create(&mut ids, p1, p2).unwrap();
    let msg = Message::send(&mut ids, p2.as_u64());
    channel.send_from_b(msg).unwrap();
    assert_eq!(channel.pending_at_a(), 1);
    assert_eq!(channel.pending_at_b(), 0);
    let got = channel.recv_at_a().unwrap();
    assert_eq!(got.header.sender_pid, p2.as_u64());
}

#[test]
fn closed_channel_refuses_sends() {
    let mut ids = IdCounter::new();
    let p1 = ProcessId::new(&mut ids);
    let p2 = ProcessId::new(&mut ids);
    let mut channel = Channel::create(&mut ids, p1, p2).unwrap();
    channel.close();
    let msg = Message::send(&mut ids, 1);
    assert!(matches!(channel.send_from_a(msg), Err(ChannelError::PermissionDenied)));
}

#[test]
fn queue_rejects_capacity_not_power_of_two() {
    assert!(matches!(MessageQueue::new(3), Err(QueueError::InvalidCapacity)));
    assert!(matches!(MessageQueue::new(0), Err(QueueError::InvalidCapacity)));
}

#[test]
fn empty_queue_pop_is_empty_error() {
    let mut queue = MessageQueue::new(2).unwrap();
    assert!(matches!(queue.try_pop(), Err(QueueError::Empty)));
}

#[test]
fn queue_is_first_in_first_out() {
    let mut ids = IdCounter::new();
    let mut queue = MessageQueue::new(4).unwrap();
    for pid in 10..13u64 {
        queue.try_push(Message::new(&mut ids, MessageType::Send, pid)).unwrap();
    }
    for pid in 10..13u64 {
        assert_eq!(queue.try_pop().unwrap().header.sender_pid, pid);
    }
}

#[test]
fn notification_try_wait_consumes_bits() {
    let mut ids = IdCounter::new();
    let process = ProcessId::new(&mut ids);
    let mut notification = Notification::new(&mut ids, process);
    notification.signal(0b101);
    assert_eq!(notification.try_wait(0b001), Some(0b001));
    assert!(!notification.is_signaled(0));
    assert!(notification.is_signaled(2));
    assert_eq!(notification.try_wait(0b001), None);
}

#[test]
fn signaling_unknown_notification_fails() {
    let mut manager = init();
    assert!(signal_notification(&mut manager, 999, 1).is_err());
}

#[test]
fn destroying_unknown_channel_is_ignored() {
    let mut manager = ChannelManager::new();
    assert!(manager.destroy_channel(ChannelId(77)).is_ok());
    assert_eq!(manager.channel_count(), 0);
}

#[test]
fn ipc_error_messages() {
    assert!(!IpcError::InvalidEndpoint.message().is_empty());
}

#[test]
fn ipc_wait_step_takes_pending_bits() {
    let mut manager = IpcManager::init();
    let process = ProcessId::new(&mut manager.ids);
    let id = manager.notifications.create_notification(&mut manager.ids, process);
    assert_eq!(sys_ipc_wait_step(&mut manager, id.as_u64(), 0b11), Ok(None));
    sys_ipc_notify(&mut manager, id.as_u64(), 0b110).unwrap();
    assert_eq!(sys_ipc_wait_step(&mut manager, id.as_u64(), 0b11), Ok(Some(0b10)));
    assert_eq!(sys_ipc_wait_step(&mut manager, id.as_u64(), 0b11), Ok(None));
    assert_eq!(sys_ipc_wait_step(&mut manager, 999_999, 0b11), Err(IpcError::InvalidEndpoint));
}

#[test]
fn shm_totals_follow_regions_and_mappings() {
    let mut ids = IdCounter::new();
    let mut manager = SharedMemoryManager::new();
    let owner = ProcessId::new(&mut ids);
    let region_id = manager.create_region(&mut ids, 2, MemoryRights::READ(), ShareMode::ReadOnly, owner).unwrap();
    assert_eq!((manager.region_count(), manager.mapping_count()), (1, 0));
    let region = manager.get_region(region_id).unwrap().clone();
    let h1 = manager.map_region(&region, owner, VirtAddr::new(0x1000_0000)).unwrap();
    let h2 = manager.map_region(&region, owner, VirtAddr::new(0x2000_0000)).unwrap();
    assert_eq!((manager.region_count(), manager.mapping_count()), (1, 2));
    manager.unmap(h1).unwrap();
    assert_eq!((manager.region_count(), manager.mapping_count()), (1, 1));
    manager.unmap(h2).unwrap();
    assert_eq!((manager.region_count(), manager.mapping_count()), (1, 0));
}
