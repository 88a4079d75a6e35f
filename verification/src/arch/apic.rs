//! Interrupt controllers: the local APIC, the I/O APIC and the legacy PIC.
//!
//! The register and port accesses themselves are hardware work done by the
//! caller; this module holds the controllers' addresses and computes the
//! values written to them.

use vstd::prelude::*;

verus! {

/// Default physical base of the local APIC.
pub const LOCAL_APIC_BASE: u64 = 0xFEE0_0000;
/// Default physical base of the I/O APIC.
pub const IO_APIC_BASE: u64 = 0xFEC0_0000;
/// Vector of the APIC timer interrupt.
pub const APIC_TIMER_VECTOR: u8 = 32;
/// Vector of the spurious interrupt.
pub const APIC_SPURIOUS_VECTOR: u8 = 255;
/// The software-enable bit of the spurious vector register.
pub const APIC_ENABLE_BIT: u32 = 0x100;
/// The mask bit of an I/O APIC redirection entry.
pub const IOAPIC_MASK_BIT: u32 = 0x10000;

/// A local APIC register.
#[derive(Debug, Clone, Copy, PartialEq, Eq, Structural)]
pub enum Register {
    Id,
    Version,
    TaskPriority,
    Eoi,
    Spurious,
    Error,
    IcrLow,
    IcrHigh,
    TimerVector,
    TimerDivide,
    TimerInit,
    TimerCurrent,
    Lint0,
    Lint1,
}

/// The byte offset of a register from the APIC base.
pub open spec fn register_byte_offset(r: Register) -> usize {
    match r {
        Register::Id => 0x20,
        Register::Version => 0x30,
        Register::TaskPriority => 0x80,
        Register::Eoi => 0xB0,
        Register::Spurious => 0xF0,
        Register::Error => 0x280,
        Register::IcrLow => 0x300,
        Register::IcrHigh => 0x310,
        Register::TimerVector => 0x320,
        Register::TimerDivide => 0x3E0,
        Register::TimerInit => 0x380,
        Register::TimerCurrent => 0x390,
        Register::Lint0 => 0x350,
        Register::Lint1 => 0x360,
    }
}

impl Register {
    /// The byte offset of the register from the APIC base.
    pub fn byte_offset(self) -> (o: usize)
        ensures
            o == register_byte_offset(self),
    {
        match self {
            Register::Id => 0x20,
            Register::Version => 0x30,
            Register::TaskPriority => 0x80,
            Register::Eoi => 0xB0,
            Register::Spurious => 0xF0,
            Register::Error => 0x280,
            Register::IcrLow => 0x300,
            Register::IcrHigh => 0x310,
            Register::TimerVector => 0x320,
            Register::TimerDivide => 0x3E0,
            Register::TimerInit => 0x380,
            Register::TimerCurrent => 0x390,
            Register::Lint0 => 0x350,
            Register::Lint1 => 0x360,
        }
    }

    /// The register's index in 32-bit words from the APIC base.
    pub fn offset(self) -> (o: usize)
        ensures
            o == register_byte_offset(self) / 4,
    {
        self.byte_offset() / 4
    }
}

/// The local APIC of this processor.
#[derive(Debug, Clone, Copy)]
pub struct LocalApic {
    pub base: u64,
}

impl LocalApic {
    /// The local APIC at its default base.
    pub fn new() -> (a: Self)
        ensures
            a.base == LOCAL_APIC_BASE,
    {
        LocalApic { base: LOCAL_APIC_BASE }
    }

    /// The register writes that bring the APIC up, in order: spurious
    /// vector with the enable bit, task priority 0, timer divide 16, timer
    /// stopped on its vector, both LINTs masked, errors cleared.
    pub fn init_writes() -> (w: Vec<(Register, u32)>)
        ensures
            w@ == seq![
                (Register::Spurious, 0x1FFu32),
                (Register::TaskPriority, 0u32),
                (Register::TimerDivide, 0xBu32),
                (Register::TimerInit, 0u32),
                (Register::TimerVector, 32u32),
                (Register::Lint0, 0x10000u32),
                (Register::Lint1, 0x10000u32),
                (Register::Error, 0u32),
            ],
    {
        let mut w: Vec<(Register, u32)> = Vec::new();
        w.push((Register::Spurious, APIC_SPURIOUS_VECTOR as u32 | APIC_ENABLE_BIT));
        w.push((Register::TaskPriority, 0));
        w.push((Register::TimerDivide, 0xB));
        w.push((Register::TimerInit, 0));
        w.push((Register::TimerVector, APIC_TIMER_VECTOR as u32));
        w.push((Register::Lint0, 0x10000));
        w.push((Register::Lint1, 0x10000));
        w.push((Register::Error, 0));
        assert(255u32 | 0x100u32 == 0x1FFu32) by (bit_vector);
        assert(w@ =~= seq![
            (Register::Spurious, 0x1FFu32),
            (Register::TaskPriority, 0u32),
            (Register::TimerDivide, 0xBu32),
            (Register::TimerInit, 0u32),
            (Register::TimerVector, 32u32),
            (Register::Lint0, 0x10000u32),
            (Register::Lint1, 0x10000u32),
            (Register::Error, 0u32),
        ]);
        w
    }

    /// The spurious vector register value with the APIC enabled.
    pub fn enabled_spurious(value: u32) -> (v: u32)
        ensures
            v == value | APIC_ENABLE_BIT,
    {
        value | APIC_ENABLE_BIT
    }

    /// The spurious vector register value with the APIC disabled.
    pub fn disabled_spurious(value: u32) -> (v: u32)
        ensures
            v == value & !APIC_ENABLE_BIT,
    {
        value & !APIC_ENABLE_BIT
    }

    /// The APIC identifier in an ID register value.
    pub fn id_from_register(value: u32) -> (id: u32)
        ensures
            id == value >> 24,
    {
        value >> 24
    }

    /// The interrupt command word for a fixed IPI of `vector` to `dest`.
    pub fn ipi_command(dest: u32, vector: u8) -> (w: u32)
        ensures
            w == (dest << 18) | 0x4000 | (vector as u32),
    {
        (dest << 18) | 0x4000 | vector as u32
    }
}

/// The I/O APIC.
#[derive(Debug, Clone, Copy)]
pub struct IoApic {
    pub base: u64,
}

impl IoApic {
    /// The I/O APIC at its default base.
    pub fn new() -> (a: Self)
        ensures
            a.base == IO_APIC_BASE,
    {
        IoApic { base: IO_APIC_BASE }
    }

    /// The index of the low word of `irq`'s redirection entry.
    pub fn redirection_register(irq: u8) -> (r: u32)
        ensures
            r == 0x10 + 2 * irq,
    {
        0x10 + (irq as u32) * 2
    }

    /// The low word of a redirection entry delivering `vector`, masked
    /// unless `enabled`.
    pub fn redirection_entry(vector: u8, enabled: bool) -> (w: u32)
        ensures
            w == (vector as u32) | (if enabled { 0u32 } else { IOAPIC_MASK_BIT }),
    {
        (vector as u32) | if enabled { 0 } else { IOAPIC_MASK_BIT }
    }

    /// A redirection entry with its mask bit set.
    pub fn masked_entry(entry: u32) -> (w: u32)
        ensures
            w == entry | IOAPIC_MASK_BIT,
    {
        entry | IOAPIC_MASK_BIT
    }

    /// A redirection entry with its mask bit clear.
    pub fn unmasked_entry(entry: u32) -> (w: u32)
        ensures
            w == entry & !IOAPIC_MASK_BIT,
    {
        entry & !IOAPIC_MASK_BIT
    }
}

/// The legacy 8259 PIC pair.
#[derive(Debug, Clone, Copy)]
pub struct Pic {
    pub master_cmd: u16,
    pub master_data: u16,
    pub slave_cmd: u16,
    pub slave_data: u16,
}

impl Pic {
    /// The PIC pair at its standard ports.
    pub fn new() -> (p: Self)
        ensures
            p.master_cmd == 0x20,
            p.master_data == 0x21,
            p.slave_cmd == 0xA0,
            p.slave_data == 0xA1,
    {
        Pic { master_cmd: 0x20, master_data: 0x21, slave_cmd: 0xA0, slave_data: 0xA1 }
    }

    /// The byte writes that remap the pair to vectors 0x20 and 0x28 and
    /// mask every line, in order.
    pub fn init_writes(&self) -> (w: Vec<(u16, u8)>)
        ensures
            w@ == seq![
                (self.master_cmd, 0x11u8), (self.slave_cmd, 0x11u8),
                (self.master_data, 0x20u8), (self.slave_data, 0x28u8),
                (self.master_data, 0x04u8), (self.slave_data, 0x02u8),
                (self.master_data, 0x01u8), (self.slave_data, 0x01u8),
                (self.master_data, 0xFFu8), (self.slave_data, 0xFFu8),
            ],
    {
        let mut w: Vec<(u16, u8)> = Vec::new();
        w.push((self.master_cmd, 0x11));
        w.push((self.slave_cmd, 0x11));
        w.push((self.master_data, 0x20));
        w.push((self.slave_data, 0x28));
        w.push((self.master_data, 0x04));
        w.push((self.slave_data, 0x02));
        w.push((self.master_data, 0x01));
        w.push((self.slave_data, 0x01));
        w.push((self.master_data, 0xFF));
        w.push((self.slave_data, 0xFF));
        assert(w@ =~= seq![
            (self.master_cmd, 0x11u8), (self.slave_cmd, 0x11u8),
            (self.master_data, 0x20u8), (self.slave_data, 0x28u8),
            (self.master_data, 0x04u8), (self.slave_data, 0x02u8),
            (self.master_data, 0x01u8), (self.slave_data, 0x01u8),
            (self.master_data, 0xFFu8), (self.slave_data, 0xFFu8),
        ]);
        w
    }

    /// The data port of the PIC serving `irq`.
    pub fn irq_port(&self, irq: u8) -> (p: u16)
        ensures
            p == (if irq < 8 { self.master_data } else { self.slave_data }),
    {
        if irq < 8 {
            self.master_data
        } else {
            self.slave_data
        }
    }

    /// An interrupt mask with `irq`'s line enabled.
    pub fn unmask(mask: u8, irq: u8) -> (m: u8)
        ensures
            m == mask & !((1u8 << (irq % 8)) as u8),
    {
        let bit: u8 = irq % 8;
        mask & !(1u8 << bit)
    }

    /// An interrupt mask with `irq`'s line disabled.
    pub fn mask(mask: u8, irq: u8) -> (m: u8)
        ensures
            m == mask | ((1u8 << (irq % 8)) as u8),
    {
        let bit: u8 = irq % 8;
        mask | (1u8 << bit)
    }

    /// The command ports that must see an end-of-interrupt for `irq`, in
    /// order: the slave's first when it serves the line, then the master's.
    pub fn eoi_ports(&self, irq: u8) -> (ports: Vec<u16>)
        ensures
            ports@ == (if irq >= 8 { seq![self.slave_cmd, self.master_cmd] } else { seq![self.master_cmd] }),
    {
        let mut ports: Vec<u16> = Vec::new();
        if irq >= 8 {
            ports.push(self.slave_cmd);
        }
        ports.push(self.master_cmd);
        assert(ports@ =~= (if irq >= 8 { seq![self.slave_cmd, self.master_cmd] } else { seq![self.master_cmd] }));
        ports
    }
}

/// Unmasking then masking a line sets its bit and leaves the others;
/// masking then unmasking clears it and leaves the others.
pub proof fn lemma_pic_mask_round_trip(mask: u8, bit: u8)
    requires
        bit < 8,
    ensures
        (mask & !(1u8 << bit)) | (1u8 << bit) == mask | (1u8 << bit),
        (mask | (1u8 << bit)) & !(1u8 << bit) == mask & !(1u8 << bit),
{
    assert(bit < 8 ==> (mask & !(1u8 << bit)) | (1u8 << bit) == mask | (1u8 << bit)
        && (mask | (1u8 << bit)) & !(1u8 << bit) == mask & !(1u8 << bit)) by (bit_vector);
}

} // verus!
