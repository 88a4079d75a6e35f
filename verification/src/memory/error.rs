//! Memory-management errors.

use crate::error::KernelError;
use vstd::prelude::*;

verus! {

/// What can go wrong in the memory subsystem.
#[derive(Debug, Clone, Copy, PartialEq, Eq, Structural)]
pub enum MemoryError {
    OutOfFrames,
    InvalidAddress,
    InvalidSize,
    InvalidAlignment,
    AlreadyMapped,
    NotMapped,
    InvalidFlags,
    RegionOverlap,
    RegionNotFound,
    AddressSpaceFull,
    FrameAllocationFailed,
    PageTableCreationFailed,
    PermissionDenied,
    InvalidOrder,
    BuddySystemCorrupted,
}

/// The description of each memory error.
pub open spec fn memory_error_text(e: MemoryError) -> Seq<char> {
    match e {
        MemoryError::OutOfFrames => "Out of physical frames"@,
        MemoryError::InvalidAddress => "Invalid address"@,
        MemoryError::InvalidSize => "Invalid size"@,
        MemoryError::InvalidAlignment => "Invalid alignment"@,
        MemoryError::AlreadyMapped => "Address already mapped"@,
        MemoryError::NotMapped => "Address not mapped"@,
        MemoryError::InvalidFlags => "Invalid page flags"@,
        MemoryError::RegionOverlap => "Memory regions overlap"@,
        MemoryError::RegionNotFound => "Memory region not found"@,
        MemoryError::AddressSpaceFull => "Address space full"@,
        MemoryError::FrameAllocationFailed => "Frame allocation failed"@,
        MemoryError::PageTableCreationFailed => "Failed to create page table"@,
        MemoryError::PermissionDenied => "Permission denied"@,
        MemoryError::InvalidOrder => "Invalid buddy order"@,
        MemoryError::BuddySystemCorrupted => "Buddy system corrupted"@,
    }
}

impl MemoryError {
    /// The human-readable description of the error.
    pub fn message(&self) -> (m: &'static str)
        ensures
            m@ == memory_error_text(*self),
    {
        match self {
            MemoryError::OutOfFrames => "Out of physical frames",
            MemoryError::InvalidAddress => "Invalid address",
            MemoryError::InvalidSize => "Invalid size",
            MemoryError::InvalidAlignment => "Invalid alignment",
            MemoryError::AlreadyMapped => "Address already mapped",
            MemoryError::NotMapped => "Address not mapped",
            MemoryError::InvalidFlags => "Invalid page flags",
            MemoryError::RegionOverlap => "Memory regions overlap",
            MemoryError::RegionNotFound => "Memory region not found",
            MemoryError::AddressSpaceFull => "Address space full",
            MemoryError::FrameAllocationFailed => "Frame allocation failed",
            MemoryError::PageTableCreationFailed => "Failed to create page table",
            MemoryError::PermissionDenied => "Permission denied",
            MemoryError::InvalidOrder => "Invalid buddy order",
            MemoryError::BuddySystemCorrupted => "Buddy system corrupted",
        }
    }
}

/// The kernel error a memory error is reported as.
pub open spec fn memory_error_to_kernel(err: MemoryError) -> KernelError {
    match err {
        MemoryError::OutOfFrames | MemoryError::FrameAllocationFailed | MemoryError::AddressSpaceFull => KernelError::OutOfMemory,
        MemoryError::InvalidAddress | MemoryError::InvalidSize | MemoryError::InvalidAlignment
        | MemoryError::InvalidFlags | MemoryError::InvalidOrder => KernelError::InvalidParameter,
        MemoryError::PermissionDenied => KernelError::PermissionDenied,
        _ => KernelError::NotSupported,
    }
}

impl From<MemoryError> for KernelError {
    fn from(err: MemoryError) -> (r: KernelError) {
        match err {
            MemoryError::OutOfFrames | MemoryError::FrameAllocationFailed | MemoryError::AddressSpaceFull => KernelError::OutOfMemory,
            MemoryError::InvalidAddress | MemoryError::InvalidSize | MemoryError::InvalidAlignment
            | MemoryError::InvalidFlags | MemoryError::InvalidOrder => KernelError::InvalidParameter,
            MemoryError::PermissionDenied => KernelError::PermissionDenied,
            _ => KernelError::NotSupported,
        }
    }
}

impl vstd::std_specs::convert::FromSpecImpl<MemoryError> for KernelError {
    open spec fn obeys_from_spec() -> bool {
        true
    }

    open spec fn from_spec(err: MemoryError) -> KernelError {
        memory_error_to_kernel(err)
    }
}

} // verus!
