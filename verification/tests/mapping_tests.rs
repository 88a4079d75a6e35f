use sigrun::arch::switch::{init_ring3_task_stack, init_task_stack, TASK_RFLAGS, USER_CS_SELECTOR, USER_SS_SELECTOR};
use sigrun::arch::syscall::{init as syscall_init, syscall_stack_top, MSR_EFER, MSR_LSTAR, MSR_SFMASK, MSR_STAR};
use sigrun::arch::{boot_params_from_multiboot2, PhysAddr, VirtAddr, MB2_BOOTLOADER_MAGIC, SIGRUN_MAGIC};
use sigrun::memory::error::MemoryError;
use sigrun::memory::frame::PhysFrame;
use sigrun::memory::heap::{BumpAllocator, STATIC_HEAP_SIZE};
use sigrun::memory::mapper::{Mapper, PageTableMapper};
use sigrun::memory::page_table::PageTableFlags;

fn frame(addr: u64) -> PhysFrame {
    PhysFrame::new(PhysAddr::new(addr), 0)
}

fn mapper_with(n: u64) -> PageTableMapper {
    let mut frames = Vec::new();
    for k in 0..n {
        frames.push(frame(0x10_0000 + k * 0x1000));
    }
    PageTableMapper::new(frame(0x1000), frames)
}

#[test]
fn test_map_then_translate() {
    let mut m = mapper_with(3);
    let v = VirtAddr::new(0x40_0000);
    assert_eq!(m.translate(v), None);
    assert_eq!(m.map(v, frame(0x9000), PageTableFlags::WRITABLE()), Ok(()));
    assert_eq!(m.translate(v), Some(frame(0x9000)));
    assert_eq!(m.translate(VirtAddr::new(0x40_0123)), Some(frame(0x9000)));
    let q = m.query(v).unwrap();
    assert!(q.present);
    assert_eq!(q.flags.bits(), 0x3);
}

#[test]
fn test_map_twice_is_already_mapped() {
    let mut m = mapper_with(3);
    let v = VirtAddr::new(0x40_0000);
    assert_eq!(m.map(v, frame(0x9000), PageTableFlags::empty()), Ok(()));
    assert_eq!(m.map(v, frame(0xA000), PageTableFlags::empty()), Err(MemoryError::AlreadyMapped));
    assert_eq!(m.translate(v), Some(frame(0x9000)));
}

#[test]
fn test_map_shares_tables_within_a_table_range() {
    // Two pages under the same PT need the three tables only once.
    let mut m = mapper_with(3);
    assert_eq!(m.map(VirtAddr::new(0x40_0000), frame(0x9000), PageTableFlags::empty()), Ok(()));
    assert_eq!(m.map(VirtAddr::new(0x40_1000), frame(0xA000), PageTableFlags::empty()), Ok(()));
    assert_eq!(m.translate(VirtAddr::new(0x40_1000)), Some(frame(0xA000)));
    assert_eq!(m.translate(VirtAddr::new(0x40_0000)), Some(frame(0x9000)));
}

#[test]
fn test_map_without_table_frames_fails() {
    let mut m = mapper_with(2);
    let r = m.map(VirtAddr::new(0x40_0000), frame(0x9000), PageTableFlags::empty());
    assert_eq!(r, Err(MemoryError::FrameAllocationFailed));
    assert_eq!(m.translate(VirtAddr::new(0x40_0000)), None);
}

#[test]
fn test_unmap_returns_frame() {
    let mut m = mapper_with(3);
    let v = VirtAddr::new(0x7000_0000);
    assert_eq!(m.unmap(v), Err(MemoryError::NotMapped));
    m.map(v, frame(0x5000), PageTableFlags::USER_ACCESSIBLE()).unwrap();
    assert_eq!(m.unmap(v), Ok(frame(0x5000)));
    assert_eq!(m.translate(v), None);
    assert_eq!(m.unmap(v), Err(MemoryError::NotMapped));
}

#[test]
fn test_update_flags_keeps_frame() {
    let mut m = mapper_with(3);
    let v = VirtAddr::new(0x20_0000);
    assert_eq!(m.update_flags(v, PageTableFlags::WRITABLE()), Err(MemoryError::NotMapped));
    m.map(v, frame(0x6000), PageTableFlags::empty()).unwrap();
    assert_eq!(m.update_flags(v, PageTableFlags::WRITABLE() | PageTableFlags::USER_ACCESSIBLE()), Ok(()));
    let q = m.query(v).unwrap();
    assert_eq!(q.frame, Some(frame(0x6000)));
    assert_eq!(q.flags.bits(), 0x7);
}

#[test]
fn test_init_task_stack_frame() {
    let f = init_task_stack(0x8000, 0xdead_b000);
    assert_eq!(f.rsp, 0x8000 - 64);
    assert_eq!(f.words, vec![0, 0, 0, 0, 0, 0, 0x202, 0xdead_b000]);
    assert_eq!(TASK_RFLAGS, 0x202);
}

#[test]
fn test_init_ring3_task_stack_frame() {
    let f = init_ring3_task_stack(0x9000, 0x7000, 0x40_0000, 0x1234);
    assert_eq!(f.rsp, 0x9000 - 104);
    assert_eq!(f.words, vec![0, 0, 0, 0, 0, 0, 0, 0x1234, 0x40_0000, 0x23, 0x202, 0x7000, 0x1b]);
    assert_eq!(USER_CS_SELECTOR, 0x23);
    assert_eq!(USER_SS_SELECTOR, 0x1b);
}

#[test]
fn test_syscall_msr_setup() {
    let writes = syscall_init(0xd00, 0xffff_8000_0010_0000);
    assert_eq!(
        writes,
        vec![
            (MSR_EFER, 0xd01),
            (MSR_STAR, 0x0010_0008_0000_0000),
            (MSR_LSTAR, 0xffff_8000_0010_0000),
            (MSR_SFMASK, 0x200),
        ]
    );
    assert_eq!(syscall_stack_top(0x20_0000), 0x20_2000);
}

#[test]
fn test_multiboot2_boot_params() {
    assert!(boot_params_from_multiboot2(0x1234_5678, 0x9000, 0x30_0000).is_none());
    let p = boot_params_from_multiboot2(MB2_BOOTLOADER_MAGIC, 0x9000, 0x30_0000).unwrap();
    assert_eq!(p.magic, SIGRUN_MAGIC);
    assert_eq!(p.memory_map, 0x9000);
    assert_eq!(p.kernel_phys_start, 0x10_0000);
    assert_eq!(p.kernel_size, 0x20_0000);
    assert!(p.validate());
    let low = boot_params_from_multiboot2(MB2_BOOTLOADER_MAGIC, 0x9000, 0x8_0000).unwrap();
    assert_eq!(low.kernel_size, 0);
    assert!(!low.validate());
}

#[test]
fn test_bump_allocator() {
    let mut b = BumpAllocator::new();
    assert_eq!(b.allocate(10, 1), Some(0));
    assert_eq!(b.allocate(8, 16), Some(16));
    assert_eq!(b.allocate(4096, 4096), Some(4096));
    assert_eq!(b.allocate(STATIC_HEAP_SIZE, 8), None);
    assert_eq!(b.allocate(1, 1), Some(8192));
}

#[test]
fn test_map_leaves_other_pages() {
    let mut m = mapper_with(5);
    let a = VirtAddr::new(0x40_0000);
    let b = VirtAddr::new(0x8000_0000);
    m.map(a, frame(0x9000), PageTableFlags::empty()).unwrap();
    let before = m.query(a).unwrap();
    m.map(b, frame(0xB000), PageTableFlags::WRITABLE()).unwrap();
    assert_eq!(m.translate(b), Some(frame(0xB000)));
    let after = m.query(a).unwrap();
    assert_eq!(after.frame, before.frame);
    assert_eq!(after.flags.bits(), before.flags.bits());
    m.unmap(b).unwrap();
    assert_eq!(m.translate(a), Some(frame(0x9000)));
}
