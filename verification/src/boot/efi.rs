//! Firmware (UEFI) status codes and memory descriptors.

use vstd::prelude::*;

verus! {

pub const MEMORY_TYPE_RESERVED: u32 = 0;
pub const MEMORY_TYPE_LOADER_CODE: u32 = 1;
pub const MEMORY_TYPE_LOADER_DATA: u32 = 2;
pub const MEMORY_TYPE_BOOT_SERVICES_CODE: u32 = 3;
pub const MEMORY_TYPE_BOOT_SERVICES_DATA: u32 = 4;
pub const MEMORY_TYPE_RUNTIME_SERVICES_CODE: u32 = 5;
pub const MEMORY_TYPE_RUNTIME_SERVICES_DATA: u32 = 6;
pub const MEMORY_TYPE_CONVENTIONAL: u32 = 7;
pub const MEMORY_TYPE_UNUSABLE: u32 = 8;
pub const MEMORY_TYPE_PERSISTENT: u32 = 9;

/// A firmware status code.
#[derive(Debug, Clone, Copy, PartialEq, Eq, Structural)]
pub struct Status(pub u64);

impl Status {
    /// Success.
    #[allow(non_snake_case)]
    #[verifier::allow_in_spec]
    pub fn SUCCESS() -> Self
        returns
            Status(0),
    {
        Status(0)
    }

    /// Aborted.
    #[allow(non_snake_case)]
    #[verifier::allow_in_spec]
    pub fn ABORTED() -> Self
        returns
            Status(1),
    {
        Status(1)
    }

    /// The image could not be loaded.
    #[allow(non_snake_case)]
    #[verifier::allow_in_spec]
    pub fn LOAD_ERROR() -> Self
        returns
            Status(2),
    {
        Status(2)
    }

    /// A parameter was wrong.
    #[allow(non_snake_case)]
    #[verifier::allow_in_spec]
    pub fn INVALID_PARAMETER() -> Self
        returns
            Status(3),
    {
        Status(3)
    }

    /// Resources ran out.
    #[allow(non_snake_case)]
    #[verifier::allow_in_spec]
    pub fn OUT_OF_RESOURCES() -> Self
        returns
            Status(4),
    {
        Status(4)
    }

    /// Not found.
    #[allow(non_snake_case)]
    #[verifier::allow_in_spec]
    pub fn NOT_FOUND() -> Self
        returns
            Status(5),
    {
        Status(5)
    }
}

/// The header of a firmware table.
#[derive(Debug, Clone, Copy, PartialEq, Eq, Structural)]
pub struct TableHeader {
    pub signature: u64,
    pub revision: u32,
    pub header_size: u32,
    pub crc32: u32,
    pub reserved: u32,
}

/// The firmware's runtime services table (header only).
#[derive(Debug, Clone, Copy)]
pub struct RuntimeServices {
    pub header: TableHeader,
}

/// The firmware's boot services table (header only).
#[derive(Debug, Clone, Copy)]
pub struct BootServices {
    pub header: TableHeader,
}

/// One firmware memory descriptor.
#[derive(Debug, Clone, Copy, PartialEq, Eq, Structural)]
pub struct MemoryDescriptor {
    pub type_: u32,
    pub physical_start: u64,
    pub virtual_start: u64,
    pub page_count: u64,
    pub attribute: u64,
}

/// The kind of a firmware configuration table entry, as far as finding
/// the ACPI root pointer goes.
#[derive(Debug, Clone, Copy, PartialEq, Eq, Structural)]
pub enum ConfigTableKind {
    Acpi2,
    Acpi1,
    Other,
}

/// The address of the first entry of `kind` among `tables`, if any.
pub open spec fn first_table_of(tables: Seq<(ConfigTableKind, u64)>, kind: ConfigTableKind) -> Option<u64>
    decreases tables.len(),
{
    if tables.len() == 0 {
        None
    } else if tables[0].0 == kind {
        Some(tables[0].1)
    } else {
        first_table_of(tables.drop_first(), kind)
    }
}

/// The first entry of `kind` among `tables`, found by scanning.
fn find_table(tables: &[(ConfigTableKind, u64)], kind: ConfigTableKind) -> (r: Option<u64>)
    ensures
        r == first_table_of(tables@, kind),
{
    let mut i: usize = 0;
    assert(tables@.skip(0) =~= tables@);
    while i < tables.len()
        invariant
            i <= tables@.len(),
            first_table_of(tables@, kind) == first_table_of(tables@.skip(i as int), kind),
        decreases tables@.len() - i,
    {
        proof {
            assert(tables@.skip(i as int).drop_first() =~= tables@.skip(i + 1));
        }
        if tables[i].0 == kind {
            return Some(tables[i].1);
        }
        i = i + 1;
    }
    proof {
        assert(tables@.skip(i as int).len() == 0);
    }
    None
}

/// The ACPI root pointer among the firmware's configuration tables: the
/// first ACPI 2.0 entry, else the first ACPI 1.0 entry, else none.
pub fn select_rsdp(tables: &[(ConfigTableKind, u64)]) -> (r: Option<u64>)
    ensures
        r == (match first_table_of(tables@, ConfigTableKind::Acpi2) {
            Some(a) => Some(a),
            None => first_table_of(tables@, ConfigTableKind::Acpi1),
        }),
{
    match find_table(tables, ConfigTableKind::Acpi2) {
        Some(a) => Some(a),
        None => find_table(tables, ConfigTableKind::Acpi1),
    }
}

} // verus!
