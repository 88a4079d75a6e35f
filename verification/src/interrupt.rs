//! Interrupt handling: the exception table and IRQ bookkeeping.
//!
//! Handlers are named by their code addresses, which the caller supplies;
//! loading the table and toggling the interrupt flag are processor work
//! done by the caller.

pub mod exceptions;

use crate::arch::idt::{gate_offset, Idt, HANDLER_SELECTOR, IDT_ENTRIES, INTERRUPT_GATE};
use crate::error::KernelError;
use vstd::prelude::*;

verus! {

/// Vectors in the table.
pub const MAX_VECTORS: usize = 256;
/// Vectors available to hardware interrupts (32 to 255).
pub const MAX_IRQS: usize = 224;
/// The first hardware interrupt vector.
pub const IRQ_BASE: u8 = 32;
/// The vector of the LAPIC timer.
pub const TIMER_VECTOR: u8 = 32;
/// The vector of spurious LAPIC interrupts.
pub const SPURIOUS_VECTOR: u8 = 255;

/// The frame the processor pushes on an interrupt.
#[derive(Debug, Clone, Copy)]
pub struct IrqFrame {
    pub rip: u64,
    pub cs: u64,
    pub rflags: u64,
    pub rsp: u64,
    pub ss: u64,
}

/// The code addresses of the kernel's exception and interrupt handlers.
#[derive(Debug, Clone, Copy)]
pub struct ExceptionHandlers {
    pub divide_by_zero: u64,
    pub debug: u64,
    pub nmi: u64,
    pub breakpoint: u64,
    pub overflow: u64,
    pub bound_range: u64,
    pub invalid_opcode: u64,
    pub device_not_available: u64,
    pub double_fault: u64,
    pub invalid_tss: u64,
    pub segment_not_present: u64,
    pub stack_segment: u64,
    pub general_protection: u64,
    pub page_fault: u64,
    pub x87_exception: u64,
    pub alignment_check: u64,
    pub simd_exception: u64,
    pub timer: u64,
    pub spurious: u64,
}

/// The handler address installed for vector `v`, if any.
pub open spec fn handler_for(h: ExceptionHandlers, v: int) -> Option<u64> {
    if v == 0 { Some(h.divide_by_zero) }
    else if v == 1 { Some(h.debug) }
    else if v == 2 { Some(h.nmi) }
    else if v == 3 { Some(h.breakpoint) }
    else if v == 4 { Some(h.overflow) }
    else if v == 5 { Some(h.bound_range) }
    else if v == 6 { Some(h.invalid_opcode) }
    else if v == 7 { Some(h.device_not_available) }
    else if v == 8 { Some(h.double_fault) }
    else if v == 10 { Some(h.invalid_tss) }
    else if v == 11 { Some(h.segment_not_present) }
    else if v == 12 { Some(h.stack_segment) }
    else if v == 13 { Some(h.general_protection) }
    else if v == 14 { Some(h.page_fault) }
    else if v == 16 { Some(h.x87_exception) }
    else if v == 17 { Some(h.alignment_check) }
    else if v == 19 { Some(h.simd_exception) }
    else if v == 32 { Some(h.timer) }
    else if v == 255 { Some(h.spurious) }
    else { None }
}

/// Install the exception handlers, the LAPIC timer handler (vector 32)
/// and the spurious handler (vector 255) as kernel interrupt gates; other
/// vectors are left as they were.
pub fn early_init(idt: &mut Idt, h: &ExceptionHandlers)
    requires
        old(idt).entries@.len() == IDT_ENTRIES,
    ensures
        final(idt).entries@.len() == IDT_ENTRIES,
        forall|v: int| 0 <= v < 256 ==> match #[trigger] handler_for(*h, v) {
            Some(a) => gate_offset(final(idt).entries@[v]) == a && final(idt).entries@[v].selector == HANDLER_SELECTOR
                && final(idt).entries@[v].type_attr == INTERRUPT_GATE,
            None => final(idt).entries@[v] == old(idt).entries@[v],
        },
{
    let ghost e0 = idt.entries@;
    idt.set_handler(exceptions::DIVISION_BY_ZERO, h.divide_by_zero);
    idt.set_handler(exceptions::DEBUG, h.debug);
    idt.set_handler(exceptions::NON_MASKABLE_INTERRUPT, h.nmi);
    idt.set_handler(exceptions::BREAKPOINT, h.breakpoint);
    idt.set_handler(exceptions::OVERFLOW, h.overflow);
    idt.set_handler(exceptions::BOUND_RANGE_EXCEEDED, h.bound_range);
    idt.set_handler(exceptions::INVALID_OPCODE, h.invalid_opcode);
    idt.set_handler(exceptions::DEVICE_NOT_AVAILABLE, h.device_not_available);
    idt.set_handler_with_error(exceptions::DOUBLE_FAULT, h.double_fault);
    idt.set_handler_with_error(exceptions::INVALID_TSS, h.invalid_tss);
    idt.set_handler_with_error(exceptions::SEGMENT_NOT_PRESENT, h.segment_not_present);
    idt.set_handler_with_error(exceptions::STACK_SEGMENT_FAULT, h.stack_segment);
    idt.set_handler_with_error(exceptions::GENERAL_PROTECTION_FAULT, h.general_protection);
    idt.set_handler_with_error(exceptions::PAGE_FAULT, h.page_fault);
    idt.set_handler(exceptions::X87_FLOATING_POINT_EXCEPTION, h.x87_exception);
    idt.set_handler_with_error(exceptions::ALIGNMENT_CHECK, h.alignment_check);
    idt.set_handler(exceptions::SIMD_FLOATING_POINT_EXCEPTION, h.simd_exception);
    idt.set_handler(TIMER_VECTOR, h.timer);
    idt.set_handler(SPURIOUS_VECTOR, h.spurious);
}

/// Register a handler for an IRQ line; every registration is accepted.
pub fn register_handler(irq: u8, handler: u64) -> (r: Result<(), IrqError>)
    ensures
        r is Ok,
{
    Ok(())
}

/// Enable an IRQ line. Nothing is recorded for a line: routing is set up
/// at the interrupt controllers.
pub fn enable_irq(irq: u8) {
}

/// Disable an IRQ line. Nothing is recorded for a line: routing is set up
/// at the interrupt controllers.
pub fn disable_irq(irq: u8) {
}

/// The interrupt flag (bit 9) of a flags register value is set.
pub fn are_enabled(flags: u64) -> (b: bool)
    ensures
        b == ((flags >> 9) & 1 != 0),
{
    (flags >> 9) & 1 != 0
}

/// What can go wrong with an interrupt.
#[derive(Debug, Clone, Copy, PartialEq, Eq, Structural)]
pub enum IrqError {
    InvalidVector,
    HandlerExists,
    NotFound,
    ControllerError,
}

/// The description of each interrupt error.
pub open spec fn irq_error_text(e: IrqError) -> Seq<char> {
    match e {
        IrqError::InvalidVector => "Invalid interrupt vector"@,
        IrqError::HandlerExists => "Handler already registered"@,
        IrqError::NotFound => "Interrupt not found"@,
        IrqError::ControllerError => "Controller error"@,
    }
}

impl IrqError {
    /// The human-readable description of the error.
    pub fn message(&self) -> (m: &'static str)
        ensures
            m@ == irq_error_text(*self),
    {
        match self {
            IrqError::InvalidVector => "Invalid interrupt vector",
            IrqError::HandlerExists => "Handler already registered",
            IrqError::NotFound => "Interrupt not found",
            IrqError::ControllerError => "Controller error",
        }
    }
}

/// The kernel error an interrupt error is reported as.
pub open spec fn irq_error_to_kernel(e: IrqError) -> KernelError {
    match e {
        IrqError::InvalidVector => KernelError::InvalidParameter,
        IrqError::HandlerExists => KernelError::AlreadyExists,
        IrqError::NotFound => KernelError::NotFound,
        IrqError::ControllerError => KernelError::IoError,
    }
}

impl From<IrqError> for KernelError {
    fn from(e: IrqError) -> (r: KernelError) {
        match e {
            IrqError::InvalidVector => KernelError::InvalidParameter,
            IrqError::HandlerExists => KernelError::AlreadyExists,
            IrqError::NotFound => KernelError::NotFound,
            IrqError::ControllerError => KernelError::IoError,
        }
    }
}

impl vstd::std_specs::convert::FromSpecImpl<IrqError> for KernelError {
    open spec fn obeys_from_spec() -> bool {
        true
    }

    open spec fn from_spec(e: IrqError) -> KernelError {
        irq_error_to_kernel(e)
    }
}

} // verus!
