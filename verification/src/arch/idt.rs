//! The interrupt descriptor table.
//!
//! Handlers are named by their code address.

use vstd::prelude::*;

verus! {

/// Vectors in the table.
pub const IDT_ENTRIES: usize = 256;
/// Selector of the kernel code segment handlers run in.
pub const HANDLER_SELECTOR: u16 = 0x08;
/// Gate type of a present 64-bit interrupt gate.
pub const INTERRUPT_GATE: u8 = 0x8E;

/// One gate: the handler address split in three, its selector and type.
#[derive(Debug, Clone, Copy, PartialEq, Eq, Structural)]
pub struct IdtEntry {
    pub offset_low: u16,
    pub selector: u16,
    pub ist: u8,
    pub type_attr: u8,
    pub offset_mid: u16,
    pub offset_high: u32,
    pub reserved: u32,
}

/// The handler address a gate names.
pub open spec fn gate_offset(e: IdtEntry) -> u64 {
    (e.offset_low as u64) | ((e.offset_mid as u64) << 16) | ((e.offset_high as u64) << 32)
}

impl IdtEntry {
    /// The unused gate.
    pub fn empty() -> (e: Self)
        ensures
            e == (IdtEntry { offset_low: 0, selector: 0, ist: 0, type_attr: 0, offset_mid: 0, offset_high: 0, reserved: 0 }),
    {
        IdtEntry { offset_low: 0, selector: 0, ist: 0, type_attr: 0, offset_mid: 0, offset_high: 0, reserved: 0 }
    }

    /// A gate to the handler at `offset`.
    pub fn new(offset: u64, selector: u16, type_attr: u8) -> (e: Self)
        ensures
            e.offset_low == offset as u16,
            e.offset_mid == (offset >> 16) as u16,
            e.offset_high == (offset >> 32) as u32,
            e.selector == selector,
            e.type_attr == type_attr,
            e.ist == 0,
            e.reserved == 0,
            gate_offset(e) == offset,
    {
        let e = IdtEntry {
            offset_low: offset as u16,
            selector,
            ist: 0,
            type_attr,
            offset_mid: (offset >> 16) as u16,
            offset_high: (offset >> 32) as u32,
            reserved: 0,
        };
        assert(((offset as u16) as u64) | ((((offset >> 16) as u16) as u64) << 16) | ((((offset >> 32) as u32) as u64) << 32)
            == offset) by (bit_vector);
        e
    }
}

/// The table of 256 gates.
pub struct Idt {
    pub entries: Vec<IdtEntry>,
}

impl Idt {
    /// A table of unused gates.
    pub fn new() -> (t: Self)
        ensures
            t.entries@.len() == 256,
            forall|i: int| 0 <= i < 256 ==> #[trigger] t.entries@[i] == (IdtEntry {
                offset_low: 0, selector: 0, ist: 0, type_attr: 0, offset_mid: 0, offset_high: 0, reserved: 0 }),
    {
        let mut entries: Vec<IdtEntry> = Vec::new();
        while entries.len() < IDT_ENTRIES
            invariant
                entries@.len() <= 256,
                forall|i: int| 0 <= i < entries@.len() ==> #[trigger] entries@[i] == (IdtEntry {
                    offset_low: 0, selector: 0, ist: 0, type_attr: 0, offset_mid: 0, offset_high: 0, reserved: 0 }),
            decreases 256 - entries@.len(),
        {
            entries.push(IdtEntry::empty());
        }
        Idt { entries }
    }

    /// Install the handler at `handler` for `vector`, as a kernel interrupt
    /// gate.
    pub fn set_handler(&mut self, vector: u8, handler: u64)
        requires
            old(self).entries@.len() == IDT_ENTRIES,
        ensures
            final(self).entries@.len() == IDT_ENTRIES,
            final(self).entries@[vector as int].selector == HANDLER_SELECTOR,
            final(self).entries@[vector as int].type_attr == INTERRUPT_GATE,
            gate_offset(final(self).entries@[vector as int]) == handler,
            final(self).entries@ == old(self).entries@.update(vector as int, final(self).entries@[vector as int]),
    {
        self.entries.set(vector as usize, IdtEntry::new(handler, HANDLER_SELECTOR, INTERRUPT_GATE));
    }

    /// Install the handler at `handler`, which takes an error code, for
    /// `vector`.
    pub fn set_handler_with_error(&mut self, vector: u8, handler: u64)
        requires
            old(self).entries@.len() == IDT_ENTRIES,
        ensures
            final(self).entries@.len() == IDT_ENTRIES,
            final(self).entries@[vector as int].selector == HANDLER_SELECTOR,
            final(self).entries@[vector as int].type_attr == INTERRUPT_GATE,
            gate_offset(final(self).entries@[vector as int]) == handler,
            final(self).entries@ == old(self).entries@.update(vector as int, final(self).entries@[vector as int]),
    {
        self.entries.set(vector as usize, IdtEntry::new(handler, HANDLER_SELECTOR, INTERRUPT_GATE));
    }

    /// Install the code at `addr` for `vector`.
    pub fn set_handler_raw(&mut self, vector: u8, addr: u64)
        requires
            old(self).entries@.len() == IDT_ENTRIES,
        ensures
            final(self).entries@.len() == IDT_ENTRIES,
            final(self).entries@[vector as int].selector == HANDLER_SELECTOR,
            final(self).entries@[vector as int].type_attr == INTERRUPT_GATE,
            gate_offset(final(self).entries@[vector as int]) == addr,
            final(self).entries@ == old(self).entries@.update(vector as int, final(self).entries@[vector as int]),
    {
        self.entries.set(vector as usize, IdtEntry::new(addr, HANDLER_SELECTOR, INTERRUPT_GATE));
    }
}

/// The frame the processor pushes on an interrupt.
#[derive(Debug, Clone, Copy)]
pub struct InterruptFrame {
    pub rip: u64,
    pub cs: u64,
    pub rflags: u64,
    pub rsp: u64,
    pub ss: u64,
}

/// The IDT register image.
#[derive(Debug, Clone, Copy)]
pub struct Idtr {
    pub limit: u16,
    pub base: u64,
}

impl Idtr {
    /// The register image for a 256-gate table at `idt_addr`.
    pub fn new(idt_addr: u64) -> (r: Self)
        ensures
            r.limit == 4095,
            r.base == idt_addr,
    {
        Idtr { limit: 4095, base: idt_addr }
    }
}

} // verus!
