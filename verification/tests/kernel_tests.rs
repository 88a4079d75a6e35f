use sigrun::arch::apic::{IoApic, LocalApic, Pic, Register};
use sigrun::arch::gdt::{Gdt, GdtEntry, Gdtr, SegmentSelector, Tss};
use sigrun::arch::idt::{Idt, IdtEntry};
use sigrun::arch::{BootParams, PhysAddr, VirtAddr, SIGRUN_MAGIC};
use sigrun::ids::IdCounter;
use sigrun::interrupt::{are_enabled, disable_irq, early_init, enable_irq, register_handler, ExceptionHandlers, IrqError};
use sigrun::error::KernelError;
use sigrun::memory::error::MemoryError;
use sigrun::memory::frame::{order_for_pages, BuddyAllocator, FrameAllocator, PhysFrame};
use sigrun::memory::heap::{Heap, KernelHeap, SlabAllocator};
use sigrun::memory::page_table::{page_table_addr, page_table_indices, Page, PageTable, PageTableEntry, PageTableFlags};
use sigrun::memory::region::{MemoryRegion, RegionList, RegionType};
use sigrun::memory::{AddressSpace, MemoryManager, PhysRegion};
use sigrun::scheduler::affinity::{AffinityManager, CpuTopology};
use sigrun::scheduler::context::ContextSwitcher;
use sigrun::scheduler::idle::{power_managed_idle, IdleStats, IdleTask, SleepDepth};
use sigrun::scheduler::runqueue::Runqueue;
use sigrun::scheduler::task::{CpuAffinity, CpuId, Deadline, Priority, Task, TaskId, TaskState};
use sigrun::scheduler::{Scheduler, SwitchDecision};
use sigrun::timer::clock::{Duration, Timestamp};
use sigrun::timer::lapic::calibrated_ticks;
use sigrun::timer::wheel::TimerWheel;
use sigrun::timer::{schedule_callback, Timer, TimerError, TimerId};

#[test]
fn test_heap_basic() {
    let mut heap = Heap::new();
    heap.init(VirtAddr::new(0x10_0000), 4096);
    let ptr = heap.allocate(64, 8);
    assert!(ptr.is_some());
    let ptr2 = heap.allocate(64, 8);
    assert!(ptr2.is_some());
    assert_ne!(ptr.unwrap(), ptr2.unwrap());
}

#[test]
fn heap_near_the_top_of_memory() {
    let mut heap = Heap::new();
    heap.init(VirtAddr::new(8), u64::MAX - 18);
    assert_eq!(heap.allocate(100, 8), Some(8));
    assert_eq!(heap.allocate(4, 16), Some(112));
    assert!(heap.allocate(4, 8192).is_none());
}

#[test]
fn test_context_switcher_creation() {
    let _switcher = ContextSwitcher::new();
}

#[test]
fn test_init_task_context() {
    let mut ids = IdCounter::new();
    let mut task = Task::new_kernel(&mut ids, 0x1000, Priority::DEFAULT(), 0);
    task.time_slice = 0;
    task.kernel_stack = 0;
    let writes = ContextSwitcher::init_task_context(&mut task, 0x1000, 0xFFFF_8000_0000_1000);
    assert_eq!(task.rip, 0x1000);
    assert!(task.kernel_stack > 0);
    assert_eq!(task.kernel_stack, 0xFFFF_8000_0000_0FF0);
    assert_eq!(writes, vec![(0xFFFF_8000_0000_0FF8, 0x1000), (0xFFFF_8000_0000_0FF0, 0x202)]);
}

#[test]
fn test_idle_task_stats() {
    let mut idle = IdleTask::new(0);
    assert_eq!(idle.stats().idle_count, 0);
    assert!(!idle.stats().currently_idle);
    idle.enter_idle(100);
    assert!(idle.stats().currently_idle);
    assert_eq!(idle.stats().idle_count, 1);
    idle.exit_idle(150);
    assert!(!idle.stats().currently_idle);
}

#[test]
fn idle_stats_average() {
    let stats = IdleStats { cpu: 0, idle_count: 100, total_idle_time: 1_000_000_000, currently_idle: false };
    assert_eq!(stats.avg_idle_time_ns(), 10_000_000);
    let none = IdleStats { cpu: 0, idle_count: 0, total_idle_time: 5, currently_idle: false };
    assert_eq!(none.avg_idle_time_ns(), 0);
}

#[test]
fn idle_time_accumulates() {
    let mut idle = IdleTask::new(1);
    idle.enter_idle(1_000);
    idle.exit_idle(4_000);
    idle.enter_idle(10_000);
    idle.exit_idle(10_500);
    assert_eq!(idle.stats().total_idle_time, 3_500);
    assert_eq!(idle.stats().idle_count, 2);
    idle.reset_stats();
    assert_eq!(idle.stats().total_idle_time, 0);
}

#[test]
fn power_managed_idle_sleeps_deeper_after_100ms() {
    assert_eq!(power_managed_idle(None, 5), (Some(5), None));
    assert_eq!(power_managed_idle(Some(5), 50_000_000), (Some(5), Some(SleepDepth::Light)));
    assert_eq!(power_managed_idle(Some(5), 200_000_000), (Some(5), Some(SleepDepth::Deep)));
}

#[test]
fn test_runqueue_enqueue_dequeue() {
    let idle = TaskId::from_u64(0);
    let mut rq = Runqueue::new(CpuId::new(0), idle);
    let task1 = TaskId::from_u64(1);
    let task2 = TaskId::from_u64(2);
    rq.enqueue(task1, Priority::DEFAULT());
    rq.enqueue(task2, Priority::new(0));
    assert_eq!(rq.load(), 2);
    let next = rq.dequeue().unwrap();
    assert_eq!(next, task2);
}

#[test]
fn runqueue_falls_back_to_idle_and_reports_levels() {
    let idle = TaskId::from_u64(0);
    let mut rq = Runqueue::new(CpuId::new(3), idle);
    assert_eq!(rq.dequeue(), Some(idle));
    assert_eq!(rq.current_task(), Some(idle));
    rq.enqueue(TaskId::from_u64(7), Priority::new(17));
    let stats = rq.stats();
    assert_eq!(stats.cpu, 3);
    assert_eq!(stats.total_tasks, 1);
    assert_eq!(stats.per_level[2], 1);
    rq.boost_priorities();
    assert_eq!(rq.stats().per_level[2], 0);
    assert_eq!(rq.load(), 1);
}

#[test]
fn runqueue_round_robins_within_a_level() {
    let mut rq = Runqueue::new(CpuId::new(0), TaskId::from_u64(0));
    rq.enqueue(TaskId::from_u64(1), Priority::new(8));
    rq.enqueue(TaskId::from_u64(2), Priority::new(9));
    assert_eq!(rq.dequeue(), Some(TaskId::from_u64(1)));
    rq.enqueue(TaskId::from_u64(3), Priority::new(10));
    assert_eq!(rq.dequeue(), Some(TaskId::from_u64(2)));
    assert_eq!(rq.dequeue(), Some(TaskId::from_u64(3)));
    assert!(rq.is_empty());
}

#[test]
fn test_task_id_generation() {
    let mut ids = IdCounter::new();
    let id1 = TaskId::new(&mut ids);
    let id2 = TaskId::new(&mut ids);
    assert_ne!(id1, id2);
    assert!(id1.as_u64() > 0);
    assert!(id2.as_u64() > id1.as_u64());
}

#[test]
fn test_priority_comparison() {
    let high = Priority::new(0);
    let low = Priority::new(255);
    assert!(high < low);
    assert!(high.is_realtime());
    assert!(!low.is_realtime());
    assert!(low.is_idle());
}

#[test]
fn test_cpu_affinity() {
    let mut affinity = CpuAffinity::single(0);
    assert!(affinity.allows_cpu(0));
    assert!(!affinity.allows_cpu(1));
    affinity.add_cpu(1);
    assert!(affinity.allows_cpu(0));
    assert!(affinity.allows_cpu(1));
    affinity.remove_cpu(0);
    assert!(!affinity.allows_cpu(0));
    assert!(affinity.allows_cpu(1));
}

#[test]
fn task_test_deadline() {
    let deadline = Deadline::from_ns(1000);
    assert!(deadline.is_expired(1000));
    assert!(deadline.is_expired(1001));
    assert!(!deadline.is_expired(999));
    assert_eq!(deadline.remaining(500), 500);
    assert_eq!(deadline.remaining(1000), 0);
}

#[test]
fn kernel_task_layout() {
    let mut ids = IdCounter::new();
    let t = Task::new_kernel(&mut ids, 0xABC, Priority::new(40), 77);
    assert_eq!(t.id.as_u64(), 1);
    assert_eq!(t.kernel_stack, 0xFFFF_8000_0000_0000 + 8192 + 8192);
    assert_eq!(t.stats.created_at, 77);
    assert_eq!(t.priority_level(), 5);
    assert!(t.is_ready());
    assert!(t.can_run_on(63));
    let idle = Task::new_idle(0x55);
    assert_eq!(idle.id.as_u64(), 0);
    assert_eq!(idle.time_slice, u64::MAX);
    assert_eq!(idle.priority_level(), 31);
}

#[test]
fn scheduler_prefers_busy_tasks_round_robin() {
    let mut s = Scheduler::init();
    let idle = s.register_idle(0x10);
    assert_eq!(idle.as_u64(), 0);
    let a = s.spawn_kernel(0x100, Priority::DEFAULT(), 0);
    let b = s.spawn_kernel(0x200, Priority::DEFAULT(), 0);
    assert_eq!(s.task_count(), 3);
    s.enter_idle();
    assert_eq!(s.current_task_id(), Some(idle));
    match s.tick() {
        SwitchDecision::Switch { from, to, next_rsp } => {
            assert_eq!(from, Some(0));
            assert_eq!(to, 1);
            assert_eq!(next_rsp, 0xFFFF_8000_0000_0000 + 2 * 8192);
        }
        SwitchDecision::Stay => panic!("expected a switch"),
    }
    assert_eq!(s.current_task_id(), Some(a));
    match s.tick() {
        SwitchDecision::Switch { to, .. } => assert_eq!(to, 2),
        SwitchDecision::Stay => panic!("expected a switch"),
    }
    assert_eq!(s.current_task_id(), Some(b));
    assert_eq!(s.tick_count(), 2);
}

#[test]
fn scheduler_falls_back_to_idle() {
    let mut s = Scheduler::init();
    s.register_idle(0x10);
    assert_eq!(s.tick(), SwitchDecision::Switch { from: None, to: 0, next_rsp: 0 });
    assert_eq!(s.tick(), SwitchDecision::Stay);
    let a = s.spawn_kernel(0x100, Priority::new(1), 0);
    s.table.slots[1].as_mut().unwrap().state = TaskState::Terminated;
    assert_eq!(s.tick(), SwitchDecision::Stay);
    assert_ne!(s.current_task_id(), Some(a));
    assert_eq!(s.switch_to_idle(), 0);
}

#[test]
fn affinity_selection() {
    let m = AffinityManager::new(4);
    let mut ids = IdCounter::new();
    let mut t = Task::new_kernel(&mut ids, 0, Priority::DEFAULT(), 0);
    assert_eq!(m.select_cpu(&t, &[3, 1, 1, 2]).as_u32(), 1);
    t.affinity = CpuAffinity::from_mask(0b1100);
    assert_eq!(m.select_cpu(&t, &[0, 0, 5, 4]).as_u32(), 3);
    assert!(m.needs_rebalancing(&[0, 5]));
    assert!(!m.needs_rebalancing(&[3, 5]));
    assert!(!m.needs_rebalancing(&[9]));
    assert_eq!(m.imbalance_factor(&[2, 4, 9]), 4);
    assert_eq!(m.imbalance_factor(&[]), 0);
    let topo = CpuTopology::smp(4);
    assert!(topo.share_cache(2, 2));
    assert!(!topo.share_cache(1, 2));
    assert_eq!(topo.numa_node(3), 0);
    assert_eq!(topo.numa_node(100), 0);
}

#[test]
fn test_timer_id_generation() {
    let mut ids = IdCounter::new();
    let id1 = TimerId::new(&mut ids);
    let id2 = TimerId::new(&mut ids);
    assert_ne!(id1, id2);
}

#[test]
fn timer_wheel_fires_due_callbacks_once() {
    let mut ids = IdCounter::new();
    let mut w = TimerWheel::new();
    let a = w.schedule(&mut ids, 2_000_000, 11);
    let _b = w.schedule(&mut ids, 100_000_000, 22);
    assert_eq!(w.active_count(), 2);
    assert_eq!(w.check_expired(1_000_000), Vec::<u64>::new());
    assert_eq!(w.check_expired(2_000_000), vec![11]);
    assert_eq!(w.active_count(), 1);
    assert_eq!(w.check_expired(2_000_000), Vec::<u64>::new());
    assert!(matches!(w.cancel(a), Err(TimerError::InvalidId)));
    assert!(matches!(w.cancel(TimerId::from_u64(0)), Err(TimerError::InvalidId)));
}

#[test]
fn timer_wheel_fires_at_expiry_on_upper_level() {
    let mut ids = IdCounter::new();
    let mut w = TimerWheel::new();
    w.schedule(&mut ids, 20_000_000, 33);
    assert_eq!(w.check_expired(20_000_000), vec![33]);
    assert_eq!(w.active_count(), 0);

    // A pass later than the expiry still fires it, once.
    let mut late = TimerWheel::new();
    late.schedule(&mut ids, 20_000_000, 44);
    assert_eq!(late.check_expired(24_000_000), vec![44]);
    assert_eq!(late.active_count(), 0);
    assert_eq!(late.check_expired(30_000_000), Vec::<u64>::new());

    let mut w1 = TimerWheel::new();
    let id = w1.schedule(&mut ids, 1_000_000, 55);
    assert_eq!(w1.check_expired(2_000_000), vec![55]);
    assert_eq!(w1.active_count(), 0);
    assert!(matches!(w1.cancel(id), Err(TimerError::InvalidId)));
}

#[test]
fn timer_wheel_fires_overflow_timers_when_due() {
    let mut ids = IdCounter::new();
    let mut w = TimerWheel::new();
    w.schedule(&mut ids, 100_000_000_000, 77);
    w.schedule(&mut ids, 3_000_000, 78);
    assert_eq!(w.check_expired(50_000_000_000), vec![78]);
    assert_eq!(w.active_count(), 1);
    assert_eq!(w.check_expired(100_000_000_000), vec![77]);
    assert_eq!(w.active_count(), 0);
}

#[test]
fn timer_wheel_cancel_and_overflow() {
    let mut ids = IdCounter::new();
    let mut w = TimerWheel::new();
    let far = w.schedule(&mut ids, 100_000_000_000, 5);
    assert_eq!(w.active_count(), 1);
    assert!(w.cancel(far).is_ok());
    assert_eq!(w.active_count(), 0);
    let near = w.schedule(&mut ids, 3_000_000, 6);
    assert!(w.cancel(near).is_ok());
    assert_eq!(w.active_count(), 0);
}

#[test]
fn timer_subsystem_ticks() {
    let mut t = Timer::new();
    let mut s = Scheduler::init();
    let id = schedule_callback(&mut t, 5_000_000, 9);
    assert_eq!(id.as_u64(), 1);
    let (fired, _) = sigrun::timer::on_tick(&mut t, &mut s);
    assert_eq!(fired, vec![9]);
    assert_eq!(sigrun::timer::current_time(&t), 10_000_000);
    let (fired, _) = sigrun::timer::on_tick(&mut t, &mut s);
    assert!(fired.is_empty());
    assert_eq!(TimerError::WheelFull.message(), "Timer wheel full");
}

#[test]
fn clock_arithmetic() {
    let t = Timestamp::new(5_000_000_000);
    assert_eq!(t.as_secs(), 5);
    assert_eq!(t.as_ms(), 5_000);
    assert_eq!(t.add(Duration::from_ms(250)).as_ns(), 5_250_000_000);
    assert_eq!(t.sub(Duration::from_secs(10)).as_ns(), 0);
    assert_eq!(Timestamp::new(u64::MAX).add(Duration::new(1)).as_ns(), u64::MAX);
    assert_eq!(Duration::from_us(7).as_ns(), 7_000);
    assert_eq!(Duration::from_secs(3).as_ms(), 3_000);
    assert_eq!(Duration::new(2_500).as_us(), 2);
}

#[test]
fn lapic_calibration() {
    assert_eq!(calibrated_ticks(0xFFFF_FFFF), 625_000);
    assert_eq!(calibrated_ticks(0), 625_000);
    assert_eq!(calibrated_ticks(0xFFFF_0000), 0xFFFF);
}

#[test]
fn buddy_allocator_splits_and_merges() {
    let mut b = BuddyAllocator::new();
    b.init(PhysAddr::new(0x10_0000), 0x1_0000);
    assert!(b.is_initialized());
    assert_eq!(b.stats().total_frames, 16);
    let f = b.allocate(0).unwrap();
    assert_eq!(f.order, 0);
    assert_eq!(b.stats().used_frames, 1);
    let g = b.allocate(2).unwrap();
    assert_eq!(g.order, 2);
    assert_eq!(b.stats().used_frames, 5);
    assert!(matches!(b.allocate(21), Err(MemoryError::InvalidOrder)));
    b.deallocate(f).unwrap();
    assert_eq!(b.stats().used_frames, 4);
    assert!(matches!(b.allocate_sized(0), Err(MemoryError::InvalidSize)));
    let h = b.allocate_sized(3 * 4096).unwrap();
    assert_eq!(h.order, 2);
}

#[test]
fn buddy_allocator_runs_out() {
    let mut b = BuddyAllocator::new();
    b.init(PhysAddr::new(0x10_0000), 0x2000);
    assert!(b.allocate(0).is_ok());
    assert!(b.allocate(0).is_ok());
    assert!(matches!(b.allocate(0), Err(MemoryError::OutOfFrames)));
}

#[test]
fn pages_to_order() {
    assert_eq!(order_for_pages(0), 0);
    assert_eq!(order_for_pages(1), 0);
    assert_eq!(order_for_pages(2), 1);
    assert_eq!(order_for_pages(3), 2);
    assert_eq!(order_for_pages(512), 9);
    assert_eq!(order_for_pages(1 << 30), 20);
}

#[test]
fn frame_allocator_reservations() {
    let mut a = FrameAllocator::new();
    a.init(PhysAddr::new(0x20_0000), 0x20_0000);
    a.add_reserved(PhysAddr::new(0x1000), PhysAddr::new(0x2000));
    assert!(a.is_reserved(PhysAddr::new(0x1800)));
    assert!(!a.is_reserved(PhysAddr::new(0x2000)));
    let p = a.allocate_2mb().unwrap();
    assert_eq!(p.start.as_u64(), 0x20_0000);
    assert!(a.allocate_page().is_err());
}

#[test]
fn phys_frame_geometry() {
    let f = PhysFrame::new(PhysAddr::new(0x20_0000), 9);
    assert_eq!(f.size(), 0x20_0000);
    assert_eq!(f.end_address().as_u64(), 0x40_0000);
    assert_eq!(f.pfn(), 0x200);
    assert!(f.contains(PhysAddr::new(0x3F_FFFF)));
    assert!(!f.contains(PhysAddr::new(0x40_0000)));
}

#[test]
fn page_table_entries_and_indices() {
    let frame = PhysFrame::new(PhysAddr::new(0x5000), 0);
    let e = PageTableEntry::new(frame, PageTableFlags::kernel_data());
    assert!(e.is_present());
    assert!(!e.is_huge());
    assert_eq!(e.addr().as_u64(), 0x5000);
    assert_eq!(e.flags().bits(), 3);
    assert_eq!(e.frame().start.as_u64(), 0x5000);
    let (a, b, c, d) = page_table_indices(VirtAddr::new(0x0000_7F80_4020_3123));
    assert_eq!((a, b, c, d), (255, 1, 1, 3));
    assert_eq!(page_table_addr(a, b, c, d).as_u64(), 0x0000_7F80_4020_3000);
    let p = Page::from_addr(VirtAddr::new(0x1234_5678));
    assert_eq!(p.addr().as_u64(), 0x1234_5000);
    assert_eq!(p.p1_index(), 0x145);
    let mut t = PageTable::new();
    assert!(t.get(511).unwrap().is_unused());
    assert!(t.get(512).is_none());
    t.clear();
    assert_eq!(PageTableFlags::user_rodata().bits(), 5);
    assert_eq!((PageTableFlags::PRESENT() | PageTableFlags::NO_EXECUTE()).bits(), 0x8000_0000_0000_0001);
}

#[test]
fn region_list_orders_and_refuses_overlap() {
    let r = |start: u64, size: u64| MemoryRegion::new(VirtAddr::new(start), size, PageTableFlags::kernel_data(), RegionType::Data);
    let mut l = RegionList::new();
    l.add(r(0x3000, 0x1000)).unwrap();
    l.add(r(0x1000, 0x1000)).unwrap();
    l.add(r(0x2000, 0x1000)).unwrap();
    let starts: Vec<u64> = l.iter().iter().map(|x| x.start.as_u64()).collect();
    assert_eq!(starts, vec![0x1000, 0x2000, 0x3000]);
    assert!(matches!(l.add(r(0x2800, 0x100)), Err(MemoryError::RegionOverlap)));
    assert_eq!(l.find(VirtAddr::new(0x2FFF)).unwrap().start.as_u64(), 0x2000);
    assert!(l.find(VirtAddr::new(0x4000)).is_none());
    assert_eq!(l.total_size(), 0x3000);
    assert_eq!(l.remove(VirtAddr::new(0x2000)).unwrap().size, 0x1000);
    assert_eq!(l.count(), 2);
    assert!(l.remove(VirtAddr::new(0x2000)).is_none());
}

#[test]
fn region_list_stays_in_start_order() {
    let r = |start: u64| MemoryRegion::new(VirtAddr::new(start), 0x100, PageTableFlags::kernel_data(), RegionType::Data);
    let mut l = RegionList::new();
    for start in [0x5000u64, 0x4000, 0x9000, 0x1000, 0x7000, 0x3000] {
        l.add(r(start)).unwrap();
    }
    l.remove(VirtAddr::new(0x4000)).unwrap();
    l.add(r(0x2000)).unwrap();
    let starts: Vec<u64> = l.iter().iter().map(|x| x.start.as_u64()).collect();
    assert_eq!(starts, vec![0x1000, 0x2000, 0x3000, 0x5000, 0x7000, 0x9000]);
}

#[test]
fn region_list_get_mut_changes_in_place() {
    let mut l = RegionList::new();
    l.add(MemoryRegion::new(VirtAddr::new(0x1000), 0x1000, PageTableFlags::kernel_data(), RegionType::Data)).unwrap();
    l.add(MemoryRegion::new(VirtAddr::new(0x8000), 0x1000, PageTableFlags::kernel_data(), RegionType::Data)).unwrap();
    l.get_mut(1).size = 0x2000;
    assert_eq!(l.iter()[1].size, 0x2000);
    assert_eq!(l.iter()[0].size, 0x1000);
    assert_eq!(l.total_size(), 0x3000);
}

#[test]
fn irq_lines_accept_every_request() {
    enable_irq(1);
    disable_irq(1);
    assert!(register_handler(4, 0x1234).is_ok());
}

#[test]
fn region_list_fills_up() {
    let mut l = RegionList::new();
    for i in 0..32u64 {
        l.add(MemoryRegion::new(VirtAddr::new(i * 0x1000), 0x1000, PageTableFlags::empty(), RegionType::Heap)).unwrap();
    }
    let extra = MemoryRegion::new(VirtAddr::new(0x100_0000), 0x1000, PageTableFlags::empty(), RegionType::Heap);
    assert!(matches!(l.add(extra), Err(MemoryError::AddressSpaceFull)));
}

#[test]
fn memory_manager_vmalloc_and_spaces() {
    let params = BootParams {
        magic: SIGRUN_MAGIC,
        version: 1,
        memory_map: 0,
        memory_map_size: 0,
        memory_descriptor_size: 0,
        kernel_phys_start: 0,
        kernel_virt_start: 0,
        kernel_size: 1,
        rsdp_address: 0,
        efi_system_table: 0,
    };
    assert!(params.validate());
    let mut m = MemoryManager::new(PhysFrame::new(PhysAddr::new(0x1000), 0), &params).unwrap();
    let a = m.vmalloc(1).unwrap();
    let b = m.vmalloc(4097).unwrap();
    assert_eq!(b.as_u64() - a.as_u64(), 4096);
    let space = m.alloc_address_space().unwrap();
    assert_eq!(space.id(), 1);
    let space2 = m.alloc_address_space().unwrap();
    assert_eq!(space2.id(), 2);
    assert!(m.free_address_space(space).is_ok());
    assert_eq!(m.allocator_stats().total_frames, 0x1_0000);
    assert_eq!(m.kernel_space().id(), 0);
}

#[test]
fn address_space_regions_and_heap() {
    let mut ids = IdCounter::new();
    let mut s = AddressSpace::new(&mut ids, PhysFrame::new(PhysAddr::new(0x8000), 0));
    assert_eq!(s.pml4_frame().start.as_u64(), 0x8000);
    let region = MemoryRegion::new(VirtAddr::new(0x40_0000), 0x2000, PageTableFlags::user_code(), RegionType::Code);
    s.add_region(region).unwrap();
    assert!(s.find_region(VirtAddr::new(0x40_1000)).is_some());
    assert_eq!(s.regions().count(), 1);
    assert!(s.remove_region(VirtAddr::new(0x40_0000)).is_some());
    s.init_heap(VirtAddr::new(0x100_0000), 0x1000);
    assert_eq!(s.heap_stats().total, 0x1000);
    let region = PhysRegion::new(PhysAddr::new(0x1000), 2);
    assert_eq!(region.size(), 0x2000);
    assert!(region.contains(PhysAddr::new(0x2FFF)));
    assert!(!region.contains(PhysAddr::new(0x3000)));
}

#[test]
fn heap_respects_alignment_and_limits() {
    let mut heap = Heap::new();
    heap.init(VirtAddr::new(0x1001), 0x100);
    assert_eq!(heap.allocate(4, 16), Some(0x1010));
    assert_eq!(heap.allocate(4, 8192), None);
    assert_eq!(heap.allocate(0x1000, 1), None);
    assert_eq!(heap.used(), 4);
    heap.deallocate(0x1010, 4);
    assert_eq!(heap.used(), 0);
    assert_eq!(heap.available(), 0x1101 - 0x1014);
    let k = KernelHeap::new();
    assert_eq!(k.stats().total, 0);
    let mut slab = SlabAllocator::new();
    assert_eq!(slab.allocate(24, 8), None);
    assert_eq!(slab.allocate(8192, 8), None);
}

#[test]
fn memory_error_maps_to_kernel_error() {
    assert_eq!(KernelError::from(MemoryError::OutOfFrames), KernelError::OutOfMemory);
    assert_eq!(KernelError::from(MemoryError::InvalidOrder), KernelError::InvalidParameter);
    assert_eq!(KernelError::from(MemoryError::PermissionDenied), KernelError::PermissionDenied);
    assert_eq!(KernelError::from(MemoryError::NotMapped), KernelError::NotSupported);
    assert_eq!(MemoryError::InvalidOrder.message(), "Invalid buddy order");
    assert_eq!(KernelError::from(IrqError::HandlerExists), KernelError::AlreadyExists);
}

#[test]
fn descriptor_tables() {
    let mut gdt = Gdt::new();
    assert_eq!(gdt.entries[1], GdtEntry::kernel_code());
    gdt.set_tss(0x1234_5678_9ABC_DEF0);
    assert_eq!(gdt.entries[6].0, 0x1234_5678);
    let low = gdt.entries[5].0;
    assert_eq!(low & 0xFFFF, 103);
    assert_eq!((low >> 16) & 0xFF_FFFF, 0xBC_DEF0);
    assert_eq!((low >> 56) & 0xFF, 0x9A);
    let mut tss = Tss::new();
    tss.set_rsp(0, 0xFFFF_FFFF_8000_0000);
    tss.set_rsp(3, 1);
    tss.set_ist(1, 7);
    tss.set_ist(0, 9);
    assert_eq!(tss.rsp, vec![0xFFFF_FFFF_8000_0000, 0, 0]);
    assert_eq!(tss.ist[0], 7);
    assert_eq!(tss.iomap_base, 104);
    assert_eq!(Gdtr::new(0x5000).limit, 55);
    assert_eq!(SegmentSelector::USER_CODE().0, 0x1B);
    let e = IdtEntry::new(0xFFFF_8000_1234_5678, 0x08, 0x8E);
    assert_eq!(e.offset_low, 0x5678);
    assert_eq!(e.offset_mid, 0x1234);
    assert_eq!(e.offset_high, 0xFFFF_8000);
}

#[test]
fn exception_table_installation() {
    let mut idt = Idt::new();
    let h = ExceptionHandlers {
        divide_by_zero: 0x1000,
        debug: 0x1010,
        nmi: 0x1020,
        breakpoint: 0x1030,
        overflow: 0x1040,
        bound_range: 0x1050,
        invalid_opcode: 0x1060,
        device_not_available: 0x1070,
        double_fault: 0x1080,
        invalid_tss: 0x1090,
        segment_not_present: 0x10A0,
        stack_segment: 0x10B0,
        general_protection: 0x10C0,
        page_fault: 0x10D0,
        x87_exception: 0x10E0,
        alignment_check: 0x10F0,
        simd_exception: 0x1100,
        timer: 0x1110,
        spurious: 0x1120,
    };
    early_init(&mut idt, &h);
    assert_eq!(idt.entries[14].offset_low, 0x10D0);
    assert_eq!(idt.entries[14].type_attr, 0x8E);
    assert_eq!(idt.entries[255].offset_low, 0x1120);
    assert_eq!(idt.entries[9], IdtEntry::empty());
    assert!(are_enabled(0x202));
    assert!(!are_enabled(0x002));
}

#[test]
fn interrupt_controllers() {
    assert_eq!(Register::Spurious.offset(), 0x3C);
    assert_eq!(Register::TimerDivide.offset(), 0xF8);
    assert_eq!(LocalApic::new().base, 0xFEE0_0000);
    assert_eq!(IoApic::new().base, 0xFEC0_0000);
    assert_eq!(LocalApic::ipi_command(1, 0x40), (1 << 18) | 0x4000 | 0x40);
    assert_eq!(IoApic::redirection_register(3), 0x16);
    assert_eq!(IoApic::redirection_entry(0x30, false), 0x1_0030);
    let pic = Pic::new();
    assert_eq!(pic.irq_port(9), 0xA1);
    assert_eq!(Pic::unmask(0xFF, 10), 0xFB);
    assert_eq!(Pic::mask(0x00, 3), 0x08);
    assert_eq!(pic.eoi_ports(12), vec![0xA0, 0x20]);
    assert_eq!(pic.init_writes().len(), 10);
    assert_eq!(LocalApic::init_writes()[0], (Register::Spurious, 0x1FF));
}

#[test]
fn address_helpers() {
    assert_eq!(PhysAddr::new(0x1FFF).page_align().as_u64(), 0x1000);
    assert!(VirtAddr::new(0x2000).is_aligned(0x1000));
    assert!(!VirtAddr::new(0x2001).is_aligned(2));
    assert!(VirtAddr::new(0xFFFF_8000_0000_0000).is_kernel());
    assert!(VirtAddr::new(0x1000).is_user());
    assert!(VirtAddr::new(0x7FFF_FFFF_FFFF).is_user());
    assert!(!VirtAddr::new(0x0000_8000_0000_0000).is_user());
}

#[test]
fn in_place_access() {
    let mut t = PageTable::new();
    if let Some(e) = t.get_mut(3) {
        e.set(PhysFrame::new(PhysAddr::new(0x5000), 0), PageTableFlags::PRESENT());
    }
    assert!(t.get(3).unwrap().is_present());
    assert_eq!(t.get(3).unwrap().frame().start.as_u64(), 0x5000);
    assert!(t.get_mut(512).is_none());

    let mut l = RegionList::new();
    l.add(MemoryRegion::new(VirtAddr::new(0x1000), 0x2000, PageTableFlags::empty(), RegionType::Data)).unwrap();
    assert!(l.find_mut(VirtAddr::new(0x9000)).is_none());
    if let Some(r) = l.find_mut(VirtAddr::new(0x2000)) {
        r.flags = PageTableFlags::WRITABLE();
    }
    assert_eq!(l.find(VirtAddr::new(0x1000)).unwrap().flags.bits(), 0x2);

    let params = BootParams {
        magic: SIGRUN_MAGIC,
        version: 1,
        memory_map: 0,
        memory_map_size: 0,
        memory_descriptor_size: 0,
        kernel_phys_start: 0,
        kernel_virt_start: 0,
        kernel_size: 1,
        rsdp_address: 0,
        efi_system_table: 0,
    };
    let mut m = MemoryManager::new(PhysFrame::new(PhysAddr::new(0x1000), 0), &params).unwrap();
    let _f = m.frame_allocator().allocate(0).unwrap();
    assert_eq!(m.allocator_stats().free_frames, 0xFFFF);
    m.kernel_space_mut()
        .add_region(MemoryRegion::new(VirtAddr::new(0x40_0000), 0x1000, PageTableFlags::empty(), RegionType::Heap))
        .unwrap();
    assert_eq!(m.kernel_space().regions().count(), 1);
    let mut ids = IdCounter::new();
    let mut s = AddressSpace::new(&mut ids, PhysFrame::new(PhysAddr::new(0x8000), 0));
    s.regions_mut()
        .add(MemoryRegion::new(VirtAddr::new(0x1000), 0x1000, PageTableFlags::empty(), RegionType::Stack))
        .unwrap();
    assert_eq!(s.regions().count(), 1);
}

#[test]
fn buddy_free_without_merge_returns_frame() {
    let mut b = BuddyAllocator::new();
    b.init(PhysAddr::new(0x10_0000), 0x2000);
    let a = b.allocate(0).unwrap();
    let _c = b.allocate(0).unwrap();
    assert!(matches!(b.allocate(0), Err(MemoryError::OutOfFrames)));
    b.deallocate(a).unwrap();
    assert_eq!(b.allocate(0).unwrap(), a);
    assert!(matches!(b.allocate(0), Err(MemoryError::OutOfFrames)));
}

#[test]
fn buddy_free_merges_back() {
    let mut b = BuddyAllocator::new();
    b.init(PhysAddr::new(0x10_0000), 0x1_0000);
    let before = b.stats();
    let f = b.allocate(0).unwrap();
    assert!(matches!(b.allocate(4), Err(MemoryError::OutOfFrames)));
    b.deallocate(f).unwrap();
    let after = b.stats();
    assert_eq!((after.used_frames, after.free_frames), (before.used_frames, before.free_frames));
    let whole = b.allocate(4).unwrap();
    assert_eq!(whole.start.as_u64(), 0x10_0000);
    assert_eq!(whole.order, 4);
}

#[test]
fn buddy_sized_requests_beyond_largest_block() {
    let mut b = BuddyAllocator::new();
    b.init(PhysAddr::new(0x10_0000), 0x1_0000);
    assert!(matches!(b.allocate_sized(0x1_0000_0001), Err(MemoryError::InvalidSize)));
    assert!(matches!(b.allocate_sized(u64::MAX - 4095), Err(MemoryError::InvalidSize)));
    assert!(matches!(b.allocate_sized(0x1_0000_0000), Err(MemoryError::OutOfFrames)));
    assert_eq!(b.allocate_sized(4097).unwrap().order, 1);
}

#[test]
fn scheduler_round_robin_order() {
    let mut s = Scheduler::init();
    for _ in 0..3 {
        s.spawn_kernel(0x1000, Priority::new(64), 0);
    }
    let mut order = Vec::new();
    for _ in 0..4 {
        match s.tick() {
            SwitchDecision::Switch { to, .. } => order.push(to),
            SwitchDecision::Stay => order.push(usize::MAX),
        }
    }
    assert_eq!(order, vec![1, 2, 0, 1]);
}
