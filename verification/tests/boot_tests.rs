use sigrun::boot::efi::{select_rsdp, ConfigTableKind};
use sigrun::boot::kernel::{check_file_read, kernel_file_size, kernel_image_size, kernel_info, load_extent, parse_elf_header, segment_copies, LoadError};
use sigrun::boot::memory::{summarize_memory_map, MemoryMapEntry};
use sigrun::boot::paging::{get_phys_addr, identity_pdpt_entries, make_entry, PageTableFlags};
use sigrun::boot::params::{create_boot_params, with_memory_map, BootParams, SIGRUN_BOOTINFO_MAGIC};

#[test]
fn test_parse_invalid_elf() {
    let data = [0u8; 64];
    assert!(matches!(parse_elf_header(&data), Err(LoadError::InvalidFormat)));
}

#[test]
fn test_parse_valid_elf_header() {
    let mut data = vec![0u8; 64];
    data[0..4].copy_from_slice(b"\x7fELF");
    data[4] = 2;
    data[5] = 1;
    data[6] = 1;
    data[24..32].copy_from_slice(&0xFFFFFFFF80001000u64.to_le_bytes());
    data[32..40].copy_from_slice(&64u64.to_le_bytes());
    data[54..56].copy_from_slice(&56u16.to_le_bytes());
    data[56..58].copy_from_slice(&3u16.to_le_bytes());

    let header = parse_elf_header(&data).unwrap();
    assert_eq!(header.class, 2);
    assert_eq!(header.endian, 1);
    assert_eq!(header.entry, 0xFFFFFFFF80001000u64);
    assert_eq!(header.phnum, 3);
}

#[test]
fn test_page_table_flags() {
    assert!(PageTableFlags::is_present(0x3));
    assert!(!PageTableFlags::is_present(0));
    assert!(PageTableFlags::is_huge_page(0x83));
}

#[test]
fn test_make_entry() {
    let entry = make_entry(0x1000, 0x3);
    assert_eq!(entry, 0x1003);
    assert_eq!(get_phys_addr(entry), 0x1000);
}

fn elf_with_segments(segments: &[(u32, u64, u64, u64, u64)]) -> Vec<u8> {
    // Each segment: (type, offset, vaddr, filesz, memsz); headers start at 64.
    let mut data = vec![0u8; 64 + 56 * segments.len() + 64];
    data[0..4].copy_from_slice(b"\x7fELF");
    data[4] = 2;
    data[5] = 1;
    data[6] = 1;
    data[24..32].copy_from_slice(&0x40_1000u64.to_le_bytes());
    data[32..40].copy_from_slice(&64u64.to_le_bytes());
    data[54..56].copy_from_slice(&56u16.to_le_bytes());
    data[56..58].copy_from_slice(&(segments.len() as u16).to_le_bytes());
    for (i, (ty, off, vaddr, filesz, memsz)) in segments.iter().enumerate() {
        let b = 64 + 56 * i;
        data[b..b + 4].copy_from_slice(&ty.to_le_bytes());
        data[b + 8..b + 16].copy_from_slice(&off.to_le_bytes());
        data[b + 16..b + 24].copy_from_slice(&vaddr.to_le_bytes());
        data[b + 32..b + 40].copy_from_slice(&filesz.to_le_bytes());
        data[b + 40..b + 48].copy_from_slice(&memsz.to_le_bytes());
    }
    data
}

#[test]
fn short_or_wrong_class_elf_is_invalid() {
    let mut data = vec![0u8; 63];
    assert!(matches!(parse_elf_header(&data), Err(LoadError::InvalidFormat)));
    data = elf_with_segments(&[]);
    data[4] = 1;
    assert!(matches!(parse_elf_header(&data), Err(LoadError::InvalidFormat)));
    data[4] = 2;
    data[5] = 2;
    assert!(matches!(parse_elf_header(&data), Err(LoadError::InvalidFormat)));
}

#[test]
fn load_extent_spans_loadable_segments() {
    let data = elf_with_segments(&[(1, 0, 0x40_0000, 16, 0x2000), (4, 0, 0x10, 0, 0), (1, 16, 0x40_3000, 8, 0x800)]);
    let header = parse_elf_header(&data).unwrap();
    let (min, max) = load_extent(&data, &header).unwrap();
    assert_eq!(min, 0x40_0000);
    assert_eq!(max, 0x40_3800);
    assert_eq!(kernel_image_size(min, max), 0x4000);
    let copies = segment_copies(&data, &header, min);
    assert_eq!(copies.len(), 2);
    assert_eq!(copies[0].src_offset, 0);
    assert_eq!(copies[0].dest_offset, 0);
    assert_eq!(copies[0].len, 16);
    assert_eq!(copies[1].src_offset, 16);
    assert_eq!(copies[1].dest_offset, 0x3000);
    assert_eq!(copies[1].len, 8);
    let info = kernel_info(0x20_0000, min, header.entry, 0x4000);
    assert_eq!(info.entry_point, 0x20_1000);
    assert_eq!(info.virt_start, 0x40_0000);
}

#[test]
fn load_extent_without_loadable_segment_is_invalid() {
    let data = elf_with_segments(&[(4, 0, 0x10, 0, 0)]);
    let header = parse_elf_header(&data).unwrap();
    assert!(matches!(load_extent(&data, &header), Err(LoadError::InvalidFormat)));
}

#[test]
fn memory_map_summary() {
    let e = |start: u64, pages: u64, ty: u32| MemoryMapEntry {
        phys_start: start,
        virt_start: 0,
        page_count: pages,
        memory_type: ty,
        attributes: 0,
    };
    let entries = vec![e(0, 4, 7), e(0x10000, 16, 2), e(0x100000, 16, 7), e(0x200000, 8, 7)];
    let info = summarize_memory_map(entries);
    assert_eq!(info.total_usable, (4 + 16 + 8) * 4096);
    assert_eq!(info.entries.len(), 4);
    assert_eq!(info.largest_free_region.unwrap().phys_start, 0x100000);
    assert_eq!(e(0, 3, 7).size(), 3 * 4096);
    assert!(!e(0, 3, 1).is_usable());
}

#[test]
fn identity_map_entries_cover_each_gib() {
    let v = identity_pdpt_entries();
    assert_eq!(v.len(), 512);
    assert_eq!(v[0], 0x183);
    assert_eq!(v[3], 3 * 0x4000_0000 | 0x183);
    assert_eq!(get_phys_addr(v[511]), 511 * 0x4000_0000);
    assert!(PageTableFlags::is_huge_page(v[7]));
    assert_eq!(PageTableFlags::present_bits(), 3);
    assert_eq!(PageTableFlags::huge_page_bits(), 0x183);
}

#[test]
fn boot_params_validation() {
    let mem = summarize_memory_map(vec![]);
    let kernel = kernel_info(0x20_0000, 0x40_0000, 0x40_1000, 0x4000);
    let p = create_boot_params(&mem, &kernel, 0xE0000, 0x1234);
    assert_eq!(p.magic, SIGRUN_BOOTINFO_MAGIC);
    assert!(!p.validate());
    let p: BootParams = with_memory_map(p, 0x9000, 4096, 48);
    assert!(p.validate());
    assert_eq!(p.kernel_size, 0x4000);
}

#[test]
fn rsdp_prefers_acpi2_table() {
    let tables = [(ConfigTableKind::Other, 1), (ConfigTableKind::Acpi1, 0x100), (ConfigTableKind::Acpi2, 0x200), (ConfigTableKind::Acpi2, 0x300)];
    assert_eq!(select_rsdp(&tables), Some(0x200));
    assert_eq!(select_rsdp(&tables[..2]), Some(0x100));
    assert_eq!(select_rsdp(&tables[..1]), None);
}

#[test]
fn kernel_file_size_and_read_checks() {
    assert_eq!(kernel_file_size(0x400_0000), Ok(0x400_0000));
    assert_eq!(kernel_file_size(0x400_0001), Err(LoadError::TooLarge));
    assert_eq!(check_file_read(10, 10), Ok(()));
    assert_eq!(check_file_read(10, 9), Err(LoadError::IoError));
}
