//! The parameters the boot loader hands to the kernel.

use crate::boot::kernel::KernelInfo;
use crate::boot::memory::MemoryInfo;
use vstd::prelude::*;

verus! {

/// The magic number of a boot parameter block ("SIGR").
pub const SIGRUN_BOOTINFO_MAGIC: u64 = 0x53494752;
/// The boot parameter block version.
pub const BOOTINFO_VERSION: u32 = 1;

/// The boot parameter block.
#[derive(Debug, Clone, Copy, PartialEq, Eq, Structural)]
pub struct BootParams {
    pub magic: u64,
    pub version: u32,
    /// Physical address of the memory map; 0 for none.
    pub memory_map: u64,
    pub memory_map_size: usize,
    pub memory_descriptor_size: usize,
    pub kernel_phys_start: u64,
    pub kernel_virt_start: u64,
    pub kernel_size: u64,
    pub rsdp_address: u64,
    pub efi_system_table: u64,
}

impl BootParams {
    /// The block carries the magic and version, a memory map and a
    /// non-empty kernel.
    pub fn validate(&self) -> (b: bool)
        ensures
            b == (self.magic == SIGRUN_BOOTINFO_MAGIC && self.version == BOOTINFO_VERSION && self.memory_map != 0
                && self.kernel_size > 0),
    {
        self.magic == SIGRUN_BOOTINFO_MAGIC && self.version == BOOTINFO_VERSION && self.memory_map != 0 && self.kernel_size > 0
    }
}

/// The parameters before the memory map is final: magic, version, the
/// kernel's placement, the ACPI root pointer and the system table, with
/// no memory map yet.
pub fn create_boot_params(mem_info: &MemoryInfo, kernel_info: &KernelInfo, rsdp: u64, efi_system_table: u64) -> (p: BootParams)
    ensures
        p == (BootParams {
            magic: SIGRUN_BOOTINFO_MAGIC,
            version: BOOTINFO_VERSION,
            memory_map: 0,
            memory_map_size: 0,
            memory_descriptor_size: 0,
            kernel_phys_start: kernel_info.phys_start,
            kernel_virt_start: kernel_info.virt_start,
            kernel_size: kernel_info.size,
            rsdp_address: rsdp,
            efi_system_table,
        }),
{
    BootParams {
        magic: SIGRUN_BOOTINFO_MAGIC,
        version: BOOTINFO_VERSION,
        memory_map: 0,
        memory_map_size: 0,
        memory_descriptor_size: 0,
        kernel_phys_start: kernel_info.phys_start,
        kernel_virt_start: kernel_info.virt_start,
        kernel_size: kernel_info.size,
        rsdp_address: rsdp,
        efi_system_table,
    }
}

/// The parameters completed with the final memory map: its address, its
/// size and its descriptor size.
pub fn with_memory_map(params: BootParams, memory_map: u64, memory_map_size: usize, descriptor_size: usize) -> (p: BootParams)
    ensures
        p == (BootParams { memory_map, memory_map_size, memory_descriptor_size: descriptor_size, ..params }),
{
    BootParams { memory_map, memory_map_size, memory_descriptor_size: descriptor_size, ..params }
}

} // verus!
