//! SIGRUN microkernel core: the capability, IPC, memory, scheduling and
//! timer logic of the kernel, with its contracts proved by Verus.

pub mod ids;
pub mod keyed;
pub mod syscall_api;
pub mod error;
pub mod capability;
pub mod ipc;
pub mod arch;
pub mod memory;
pub mod scheduler;
pub mod timer;
pub mod interrupt;
pub mod boot;
pub mod syscall;
