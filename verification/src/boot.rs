//! The boot loader's logic: the kernel image, the firmware memory map,
//! the early page tables and the parameters handed to the kernel.

pub mod kernel;
pub mod memory;
pub mod paging;
pub mod params;
pub mod efi;
