//! x86_64 architecture types: physical and virtual addresses, page sizes,
//! boot parameters and the descriptor tables.


pub mod paging;
pub mod gdt;
pub mod idt;
pub mod apic;
pub mod syscall;
pub mod switch;

use vstd::prelude::*;

verus! {

/// Size of a base page.
pub const PAGE_SIZE: u64 = 4096;
/// log2 of `PAGE_SIZE`.
pub const PAGE_SHIFT: u64 = 12;
/// Size of a 2 MiB huge page.
pub const HUGE_PAGE_SIZE: u64 = 0x20_0000;
/// Size covered by one page-directory-pointer entry.
pub const PUD_SIZE: u64 = 0x2000_0000;
/// Size covered by one PML4 entry.
pub const PGD_SIZE: u64 = 0x80_0000_0000;
/// First interrupt vector used for hardware IRQs.
pub const IRQ_BASE: u8 = 32;
/// Start of the higher-half kernel region.
pub const KERNEL_HALF_START: u64 = 0xFFFF_8000_0000_0000;
/// The magic number a valid boot parameter block carries.
pub const SIGRUN_MAGIC: u64 = 0x53494752;
/// The value a multiboot2 loader leaves in EAX.
pub const MB2_BOOTLOADER_MAGIC: u32 = 0x36d76289;
/// Physical (and virtual) address the kernel image is loaded at.
pub const KERNEL_LOAD_ADDR: u64 = 0x10_0000;

/// `x` rounded down to a page boundary.
pub open spec fn page_floor(x: u64) -> u64 {
    (x - x % 4096) as u64
}

/// Clearing the low twelve bits rounds down to a page boundary.
pub proof fn lemma_page_mask(x: u64)
    ensures
        x & !0xFFFu64 == page_floor(x),
        (x & !0xFFFu64) % 4096 == 0,
{
    assert(x & !0xFFFu64 == (x - x % 4096) as u64 && (x & !0xFFFu64) % 4096 == 0) by (bit_vector);
}

/// A physical address.
#[derive(Debug, Clone, Copy, PartialEq, Eq, Structural, Hash)]
pub struct PhysAddr(pub u64);

impl PhysAddr {
    /// The address `addr`.
    pub fn new(addr: u64) -> (a: Self)
        ensures
            a.0 == addr,
    {
        PhysAddr(addr)
    }

    /// The raw address.
    pub fn as_u64(self) -> (r: u64)
        ensures
            r == self.0,
    {
        self.0
    }

    /// The address rounded down to its page.
    pub fn page_align(self) -> (a: PhysAddr)
        ensures
            a.0 == page_floor(self.0),
            a.0 % 4096 == 0,
    {
        proof {
            lemma_page_mask(self.0);
        }
        PhysAddr(self.0 & !0xFFF)
    }

    /// The address has none of the bits of `align - 1` set.
    pub fn is_aligned(self, align: u64) -> (b: bool)
        requires
            align > 0,
        ensures
            b == (self.0 & ((align - 1) as u64) == 0),
    {
        self.0 & (align - 1) == 0
    }
}

/// A virtual address.
#[derive(Debug, Clone, Copy, PartialEq, Eq, Structural, Hash)]
pub struct VirtAddr(pub u64);

impl VirtAddr {
    /// The address `addr`.
    pub fn new(addr: u64) -> (a: Self)
        ensures
            a.0 == addr,
    {
        VirtAddr(addr)
    }

    /// The raw address.
    pub fn as_u64(self) -> (r: u64)
        ensures
            r == self.0,
    {
        self.0
    }

    /// The address rounded down to its page.
    pub fn page_align(self) -> (a: VirtAddr)
        ensures
            a.0 == page_floor(self.0),
            a.0 % 4096 == 0,
    {
        proof {
            lemma_page_mask(self.0);
        }
        VirtAddr(self.0 & !0xFFF)
    }

    /// The address has none of the bits of `align - 1` set.
    pub fn is_aligned(self, align: u64) -> (b: bool)
        requires
            align > 0,
        ensures
            b == (self.0 & ((align - 1) as u64) == 0),
    {
        self.0 & (align - 1) == 0
    }

    /// The address lies in the higher-half kernel region.
    pub fn is_kernel(self) -> (b: bool)
        ensures
            b == (self.0 >= KERNEL_HALF_START),
    {
        self.0 >= KERNEL_HALF_START
    }

    /// The address lies in the canonical lower half.
    pub fn is_user(self) -> (b: bool)
        ensures
            b == (self.0 < 0x0000_8000_0000_0000u64),
    {
        self.0 < 0x0000_8000_0000_0000
    }
}

/// A local APIC identifier.
#[derive(Debug, Clone, Copy, PartialEq, Eq, Structural)]
pub struct ApicId(pub u32);

impl ApicId {
    /// The identifier `id`.
    pub fn new(id: u32) -> (a: Self)
        ensures
            a.0 == id,
    {
        ApicId(id)
    }

    /// The raw identifier.
    pub fn as_u32(self) -> (r: u32)
        ensures
            r == self.0,
    {
        self.0
    }
}

/// The identifier of a processor.
#[derive(Debug, Clone, Copy, PartialEq, Eq, Structural)]
pub struct CpuId(pub u32);

/// The parameter block the boot loader hands to the kernel.
#[derive(Debug, Clone, Copy)]
pub struct BootParams {
    pub magic: u64,
    pub version: u32,
    /// Physical address of the firmware memory map.
    pub memory_map: u64,
    pub memory_map_size: usize,
    pub memory_descriptor_size: usize,
    pub kernel_phys_start: u64,
    pub kernel_virt_start: u64,
    pub kernel_size: u64,
    pub rsdp_address: u64,
    pub efi_system_table: u64,
}

impl BootParams {
    /// The block carries the SIGRUN magic, version 1 and a non-empty kernel.
    pub fn validate(&self) -> (b: bool)
        ensures
            b == (self.magic == SIGRUN_MAGIC && self.version == 1 && self.kernel_size > 0),
    {
        self.magic == SIGRUN_MAGIC && self.version == 1 && self.kernel_size > 0
    }
}

/// The parameter block for a kernel started by a multiboot2 loader: none
/// unless `magic` is the multiboot2 magic; otherwise the SIGRUN magic,
/// version 1, the loader's information block in place of a memory map,
/// the kernel at its load address, and the kernel's size as the distance
/// from the load address to `kernel_end` (zero when the end lies below).
pub fn boot_params_from_multiboot2(magic: u32, info_ptr: u64, kernel_end: u64) -> (r: Option<BootParams>)
    ensures
        r is None <==> magic != MB2_BOOTLOADER_MAGIC,
        r matches Some(p) ==> p == (BootParams {
            magic: SIGRUN_MAGIC,
            version: 1,
            memory_map: info_ptr,
            memory_map_size: 0,
            memory_descriptor_size: 0,
            kernel_phys_start: KERNEL_LOAD_ADDR,
            kernel_virt_start: KERNEL_LOAD_ADDR,
            kernel_size: if kernel_end > KERNEL_LOAD_ADDR { (kernel_end - KERNEL_LOAD_ADDR) as u64 } else { 0 },
            rsdp_address: 0,
            efi_system_table: 0,
        }),
{
    if magic != MB2_BOOTLOADER_MAGIC {
        return None;
    }
    Some(BootParams {
        magic: SIGRUN_MAGIC,
        version: 1,
        memory_map: info_ptr,
        memory_map_size: 0,
        memory_descriptor_size: 0,
        kernel_phys_start: KERNEL_LOAD_ADDR,
        kernel_virt_start: KERNEL_LOAD_ADDR,
        kernel_size: kernel_end.saturating_sub(KERNEL_LOAD_ADDR),
        rsdp_address: 0,
        efi_system_table: 0,
    })
}

} // verus!
