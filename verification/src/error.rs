//! Kernel-wide error type.

use vstd::prelude::*;

verus! {

/// Generic kernel error.
#[derive(Debug, Clone, Copy, PartialEq, Eq, Structural)]
pub enum KernelError {
    OutOfMemory,
    InvalidParameter,
    NotFound,
    AlreadyExists,
    PermissionDenied,
    IoError,
    NotSupported,
}

/// The description of each kernel error.
pub open spec fn kernel_error_text(e: KernelError) -> Seq<char> {
    match e {
        KernelError::OutOfMemory => "Out of memory"@,
        KernelError::InvalidParameter => "Invalid parameter"@,
        KernelError::NotFound => "Not found"@,
        KernelError::AlreadyExists => "Already exists"@,
        KernelError::PermissionDenied => "Permission denied"@,
        KernelError::IoError => "I/O error"@,
        KernelError::NotSupported => "Not supported"@,
    }
}

impl KernelError {
    /// The human-readable description of the error.
    pub fn message(&self) -> (m: &'static str)
        ensures
            m@ == kernel_error_text(*self),
    {
        match self {
            KernelError::OutOfMemory => "Out of memory",
            KernelError::InvalidParameter => "Invalid parameter",
            KernelError::NotFound => "Not found",
            KernelError::AlreadyExists => "Already exists",
            KernelError::PermissionDenied => "Permission denied",
            KernelError::IoError => "I/O error",
            KernelError::NotSupported => "Not supported",
        }
    }
}

} // verus!
