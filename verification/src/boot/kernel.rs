//! The kernel image: its ELF header, the extent of its loadable segments,
//! the copies that place them, and where it ends up.
//!
//! Reading the file and allocating and filling memory are firmware work
//! done by the caller with the values computed here.

use vstd::prelude::*;

verus! {

/// Largest kernel file accepted, in bytes.
pub const MAX_KERNEL_FILE_SIZE: usize = 0x400_0000;
/// Program header type of a loadable segment.
pub const PT_LOAD: u64 = 1;

/// Where the kernel was loaded.
#[derive(Debug, Clone, Copy, PartialEq, Eq, Structural)]
pub struct KernelInfo {
    pub phys_start: u64,
    pub virt_start: u64,
    pub entry_point: u64,
    pub size: u64,
}

/// Why the kernel could not be loaded.
#[derive(Debug, Clone, Copy, PartialEq, Eq, Structural)]
pub enum LoadError {
    FileNotFound,
    InvalidFormat,
    TooLarge,
    IoError,
    AllocationFailed,
}

/// The fields of the ELF header the loader uses.
#[derive(Debug, Clone, Copy, PartialEq, Eq, Structural)]
pub struct ElfHeader {
    pub class: u8,
    pub endian: u8,
    pub version: u8,
    pub phentsize: u16,
    pub phnum: u16,
    pub entry: u64,
    pub phoff: u64,
}

/// The little-endian number in the `n` bytes of `s` from `off`.
pub open spec fn le_bytes(s: Seq<u8>, off: int, n: nat) -> nat
    decreases n,
{
    if n == 0 {
        0
    } else {
        s[off] as nat + 256 * le_bytes(s, off + 1, (n - 1) as nat)
    }
}

/// `256^n`.
pub open spec fn pow256(n: nat) -> nat
    decreases n,
{
    if n == 0 { 1 } else { 256 * pow256((n - 1) as nat) }
}

/// An `n`-byte little-endian number is below `256^n`.
pub proof fn lemma_le_bytes_bound(s: Seq<u8>, off: int, n: nat)
    ensures
        le_bytes(s, off, n) < pow256(n),
    decreases n,
{
    if n > 0 {
        lemma_le_bytes_bound(s, off + 1, (n - 1) as nat);
        let rest = le_bytes(s, off + 1, (n - 1) as nat);
        let p = pow256((n - 1) as nat);
        assert(s[off] as nat + 256 * rest < 256 * p) by (nonlinear_arith)
            requires
                rest < p,
                s[off] < 256,
        ;
    }
}

/// The little-endian number in the `n <= 8` bytes of `data` from `off`.
fn read_le(data: &[u8], off: usize, n: usize) -> (v: u64)
    requires
        n <= 8,
        off + n <= data@.len(),
    ensures
        v == le_bytes(data@, off as int, n as nat),
{
    proof {
        lemma_pow256_values();
    }
    let len = data.len();
    let mut v: u64 = 0;
    let mut k: usize = n;
    while k > 0
        invariant
            len == data@.len(),
            k <= n <= 8,
            off + n <= data@.len(),
            v == le_bytes(data@, (off + k) as int, (n - k) as nat),
            pow256(8) == 0x1_0000_0000_0000_0000,
        decreases k,
    {
        proof {
            lemma_le_bytes_bound(data@, (off + k) as int, (n - k) as nat);
            lemma_pow256_monotonic((n - k) as nat, 7);
        }
        k -= 1;
        v = v * 256 + data[off + k] as u64;
    }
    v
}

/// `256^2` and `256^8`.
proof fn lemma_pow256_values()
    ensures
        pow256(2) == 65536,
        pow256(8) == 0x1_0000_0000_0000_0000,
{
    assert(pow256(0) == 1);
    assert(pow256(1) == 256);
    assert(pow256(2) == 65536);
    assert(pow256(3) == 0x100_0000);
    assert(pow256(4) == 0x1_0000_0000);
    assert(pow256(5) == 0x100_0000_0000);
    assert(pow256(6) == 0x1_0000_0000_0000);
    assert(pow256(7) == 0x100_0000_0000_0000);
    assert(pow256(8) == 0x1_0000_0000_0000_0000);
}

/// `256^a <= 256^b` for `a <= b`.
proof fn lemma_pow256_monotonic(a: nat, b: nat)
    requires
        a <= b,
    ensures
        pow256(a) <= pow256(b),
    decreases b - a,
{
    if a < b {
        lemma_pow256_monotonic(a, (b - 1) as nat);
    }
}

/// `data` starts with a little-endian 64-bit ELF header.
pub open spec fn valid_elf_prefix(s: Seq<u8>) -> bool {
    &&& s.len() >= 64
    &&& s[0] == 0x7f && s[1] == 0x45 && s[2] == 0x4c && s[3] == 0x46
    &&& s[4] == 2
    &&& s[5] == 1
}

/// The header fields as the ELF layout places them.
pub open spec fn elf_header_of(s: Seq<u8>) -> ElfHeader {
    ElfHeader {
        class: s[4],
        endian: s[5],
        version: s[6],
        phentsize: le_bytes(s, 54, 2) as u16,
        phnum: le_bytes(s, 56, 2) as u16,
        entry: le_bytes(s, 24, 8) as u64,
        phoff: le_bytes(s, 32, 8) as u64,
    }
}

/// The size of the kernel file to read: files above
/// `MAX_KERNEL_FILE_SIZE` bytes are refused as too large.
pub fn kernel_file_size(file_size: u64) -> (r: Result<usize, LoadError>)
    ensures
        file_size > MAX_KERNEL_FILE_SIZE ==> r == Err::<usize, LoadError>(LoadError::TooLarge),
        file_size <= MAX_KERNEL_FILE_SIZE ==> r == Ok::<usize, LoadError>(file_size as usize),
{
    if file_size > MAX_KERNEL_FILE_SIZE as u64 {
        Err(LoadError::TooLarge)
    } else {
        Ok(file_size as usize)
    }
}

/// A read of the kernel file is complete only when it gave every byte.
pub fn check_file_read(file_size: usize, bytes_read: usize) -> (r: Result<(), LoadError>)
    ensures
        r == (if bytes_read == file_size { Ok::<(), LoadError>(()) } else { Err::<(), LoadError>(LoadError::IoError) }),
{
    if bytes_read != file_size {
        Err(LoadError::IoError)
    } else {
        Ok(())
    }
}

/// Read the ELF header: at least 64 bytes, the ELF magic, 64-bit class
/// and little-endian data are required, else the format is invalid.
pub fn parse_elf_header(data: &[u8]) -> (r: Result<ElfHeader, LoadError>)
    ensures
        valid_elf_prefix(data@) ==> r == Ok::<ElfHeader, LoadError>(elf_header_of(data@)),
        !valid_elf_prefix(data@) ==> r == Err::<ElfHeader, LoadError>(LoadError::InvalidFormat),
{
    if data.len() < 64 {
        return Err(LoadError::InvalidFormat);
    }
    if data[0] != 0x7f || data[1] != 0x45 || data[2] != 0x4c || data[3] != 0x46 {
        return Err(LoadError::InvalidFormat);
    }
    let class = data[4];
    if class != 2 {
        return Err(LoadError::InvalidFormat);
    }
    let endian = data[5];
    if endian != 1 {
        return Err(LoadError::InvalidFormat);
    }
    proof {
        lemma_le_bytes_bound(data@, 54, 2);
        lemma_le_bytes_bound(data@, 56, 2);
        lemma_pow256_values();
    }
    let phentsize = read_le(data, 54, 2) as u16;
    let phnum = read_le(data, 56, 2) as u16;
    let entry = read_le(data, 24, 8);
    let phoff = read_le(data, 32, 8);
    Ok(ElfHeader { class, endian, version: data[6], phentsize, phnum, entry, phoff })
}

/// The file offset of program header `i`.
pub open spec fn ph_at(h: ElfHeader, i: int) -> int {
    h.phoff + i * h.phentsize
}

/// The type of program header `i`.
pub open spec fn ph_type(s: Seq<u8>, h: ElfHeader, i: int) -> nat {
    le_bytes(s, ph_at(h, i), 4)
}

/// The file offset of segment `i`'s contents.
pub open spec fn ph_offset(s: Seq<u8>, h: ElfHeader, i: int) -> nat {
    le_bytes(s, ph_at(h, i) + 8, 8)
}

/// The virtual address of segment `i`.
pub open spec fn ph_vaddr(s: Seq<u8>, h: ElfHeader, i: int) -> nat {
    le_bytes(s, ph_at(h, i) + 16, 8)
}

/// The bytes of segment `i` in the file.
pub open spec fn ph_filesz(s: Seq<u8>, h: ElfHeader, i: int) -> nat {
    le_bytes(s, ph_at(h, i) + 32, 8)
}

/// The bytes of segment `i` in memory.
pub open spec fn ph_memsz(s: Seq<u8>, h: ElfHeader, i: int) -> nat {
    le_bytes(s, ph_at(h, i) + 40, 8)
}

/// Program header `i` lies whole in the file and describes a loadable
/// segment: it counts toward the image's extent.
pub open spec fn counts_for_extent(s: Seq<u8>, h: ElfHeader, i: int) -> bool {
    ph_at(h, i) + 56 <= s.len() && ph_type(s, h, i) == 1
}

/// The lowest start and highest end of the counted segments among the
/// first `n` program headers, starting from `(u64::MAX, 0)`.
pub open spec fn extent(s: Seq<u8>, h: ElfHeader, n: nat) -> (int, int)
    decreases n,
{
    if n == 0 {
        (u64::MAX as int, 0)
    } else {
        let prev = extent(s, h, (n - 1) as nat);
        let i = n - 1;
        if counts_for_extent(s, h, i) {
            let v = ph_vaddr(s, h, i) as int;
            let e = v + ph_memsz(s, h, i);
            (if v < prev.0 { v } else { prev.0 }, if e > prev.1 { e } else { prev.1 })
        } else {
            prev
        }
    }
}

/// Every program header offset, with room for a whole header, fits in a
/// machine word.
pub open spec fn headers_addressable(h: ElfHeader) -> bool {
    &&& h.phoff <= usize::MAX
    &&& forall|i: int| 0 <= i < h.phnum ==> #[trigger] ph_at(h, i) + 56 <= usize::MAX
}

/// No counted segment ends past the address space.
pub open spec fn segment_ends_fit(s: Seq<u8>, h: ElfHeader) -> bool {
    forall|i: int| 0 <= i < h.phnum && #[trigger] counts_for_extent(s, h, i) ==> ph_vaddr(s, h, i) + ph_memsz(s, h, i) <= u64::MAX
}

/// Whether every program header offset, with room for a whole header,
/// fits in a machine word.
pub fn check_headers_addressable(header: &ElfHeader) -> (b: bool)
    ensures
        b == headers_addressable(*header),
{
    if header.phoff as u128 > usize::MAX as u128 {
        return false;
    }
    let phnum = header.phnum as u128;
    let mut i: u128 = 0;
    while i < phnum
        invariant
            phnum == header.phnum,
            i <= phnum,
            header.phoff <= usize::MAX,
            forall|j: int| 0 <= j < i ==> #[trigger] ph_at(*header, j) + 56 <= usize::MAX,
        decreases phnum - i,
    {
        assert(i * header.phentsize <= 65535 * 65535) by (nonlinear_arith)
            requires
                i < 65536,
                header.phentsize < 65536,
        ;
        let end = header.phoff as u128 + i * header.phentsize as u128 + 56;
        if end > usize::MAX as u128 {
            assert(ph_at(*header, i as int) + 56 > usize::MAX);
            return false;
        }
        i += 1;
    }
    true
}

/// Whether no counted segment ends past the address space.
pub fn check_segment_ends_fit(data: &[u8], header: &ElfHeader) -> (b: bool)
    requires
        headers_addressable(*header),
    ensures
        b == segment_ends_fit(data@, *header),
{
    let phnum = header.phnum as usize;
    let mut i: usize = 0;
    while i < phnum
        invariant
            phnum == header.phnum,
            i <= phnum,
            headers_addressable(*header),
            forall|j: int| 0 <= j < i && #[trigger] counts_for_extent(data@, *header, j) ==> ph_vaddr(data@, *header, j) + ph_memsz(data@, *header, j) <= u64::MAX,
        decreases phnum - i,
    {
        proof {
            assert(ph_at(*header, i as int) + 56 <= usize::MAX);
            assert(i * header.phentsize <= ph_at(*header, i as int));
        }
        let ph_offset = header.phoff as usize + i * header.phentsize as usize;
        if ph_offset + 56 <= data.len() {
            let p_type = read_le(data, ph_offset, 4);
            if p_type == 1 {
                let p_vaddr = read_le(data, ph_offset + 16, 8);
                let p_memsz = read_le(data, ph_offset + 40, 8);
                if p_vaddr as u128 + p_memsz as u128 > u64::MAX as u128 {
                    assert(counts_for_extent(data@, *header, i as int));
                    return false;
                }
            }
        }
        i += 1;
    }
    true
}

/// Whether every program header can be read as far as the loader reads
/// it, with loadable segments at or above `min_vaddr` and file ranges
/// that fit in a machine word.
pub fn check_segments_readable(data: &[u8], header: &ElfHeader, min_vaddr: u64) -> (b: bool)
    requires
        headers_addressable(*header),
    ensures
        b == segments_readable(data@, *header, min_vaddr),
{
    let phnum = header.phnum as usize;
    let mut i: usize = 0;
    while i < phnum
        invariant
            phnum == header.phnum,
            i <= phnum,
            headers_addressable(*header),
            forall|j: int| 0 <= j < i ==> {
                &&& #[trigger] ph_at(*header, j) + 4 <= data@.len()
                &&& ph_type(data@, *header, j) == 1 ==> {
                    &&& ph_at(*header, j) + 40 <= data@.len()
                    &&& ph_vaddr(data@, *header, j) >= min_vaddr
                    &&& ph_offset(data@, *header, j) <= usize::MAX
                    &&& ph_offset(data@, *header, j) + ph_filesz(data@, *header, j) <= usize::MAX
                }
            },
        decreases phnum - i,
    {
        proof {
            assert(ph_at(*header, i as int) + 56 <= usize::MAX);
            assert(i * header.phentsize <= ph_at(*header, i as int));
        }
        let ph_offset = header.phoff as usize + i * header.phentsize as usize;
        if ph_offset + 4 > data.len() {
            assert(!(ph_at(*header, i as int) + 4 <= data@.len()));
            return false;
        }
        let p_type = read_le(data, ph_offset, 4);
        if p_type == 1 {
            if ph_offset + 40 > data.len() {
                assert(ph_type(data@, *header, i as int) == 1);
                return false;
            }
            let p_offset = read_le(data, ph_offset + 8, 8);
            let p_vaddr = read_le(data, ph_offset + 16, 8);
            let p_filesz = read_le(data, ph_offset + 32, 8);
            if p_vaddr < min_vaddr || p_offset as u128 > usize::MAX as u128
                || p_offset as u128 + p_filesz as u128 > usize::MAX as u128 {
                assert(ph_type(data@, *header, i as int) == 1);
                return false;
            }
        }
        i += 1;
    }
    true
}

/// The range of virtual addresses the loadable segments span: the lowest
/// start and the highest end over the program headers that lie whole in
/// the file; none at all is an invalid format.
pub fn load_extent(data: &[u8], header: &ElfHeader) -> (r: Result<(u64, u64), LoadError>)
    requires
        headers_addressable(*header),
        segment_ends_fit(data@, *header),
    ensures
        ({
            let e = extent(data@, *header, header.phnum as nat);
            if e.0 == u64::MAX {
                r == Err::<(u64, u64), LoadError>(LoadError::InvalidFormat)
            } else {
                r == Ok::<(u64, u64), LoadError>((e.0 as u64, e.1 as u64))
            }
        }),
{
    let mut min_vaddr: u64 = u64::MAX;
    let mut max_vaddr: u64 = 0;
    let mut i: usize = 0;
    let phnum = header.phnum as usize;
    while i < phnum
        invariant
            phnum == header.phnum,
            i <= phnum,
            headers_addressable(*header),
            segment_ends_fit(data@, *header),
            (min_vaddr as int, max_vaddr as int) == extent(data@, *header, i as nat),
        decreases phnum - i,
    {
        proof {
            assert(ph_at(*header, i as int) + 56 <= usize::MAX);
            assert(i * header.phentsize <= ph_at(*header, i as int));
        }
        let ph_offset = header.phoff as usize + i * header.phentsize as usize;
        if ph_offset + 56 <= data.len() {
            let p_type = read_le(data, ph_offset, 4);
            if p_type == 1 {
                let p_vaddr = read_le(data, ph_offset + 16, 8);
                let p_memsz = read_le(data, ph_offset + 40, 8);
                proof {
                    assert(counts_for_extent(data@, *header, i as int));
                }
                if p_vaddr < min_vaddr {
                    min_vaddr = p_vaddr;
                }
                if p_vaddr + p_memsz > max_vaddr {
                    max_vaddr = p_vaddr + p_memsz;
                }
            }
        }
        i += 1;
    }
    if min_vaddr == u64::MAX {
        return Err(LoadError::InvalidFormat);
    }
    Ok((min_vaddr, max_vaddr))
}

/// Bytes of memory for an image spanning `[min_vaddr, max_vaddr)`,
/// rounded up to whole pages.
pub fn kernel_image_size(min_vaddr: u64, max_vaddr: u64) -> (size: u64)
    requires
        min_vaddr <= max_vaddr,
        max_vaddr - min_vaddr <= u64::MAX - 4095,
    ensures
        size == ((max_vaddr - min_vaddr + 4095) / 4096) * 4096,
        size >= max_vaddr - min_vaddr,
        size % 4096 == 0,
{
    let span = max_vaddr - min_vaddr;
    let pages = (span + 4095) / 4096;
    assert(pages * 4096 >= span && pages * 4096 <= span + 4095 && (pages * 4096) % 4096 == 0) by (nonlinear_arith)
        requires
            pages == (span + 4095) / 4096,
    ;
    pages * 4096
}

/// One segment copy: `len` bytes from `src_offset` in the file to
/// `dest_offset` in the image.
#[derive(Debug, Clone, Copy, PartialEq, Eq, Structural)]
pub struct SegmentCopy {
    pub src_offset: usize,
    pub dest_offset: u64,
    pub len: u64,
}

/// Every program header can be read as far as the loader reads it: its
/// type, and for a loadable segment its offset, address and file size;
/// a loadable segment starts at or above `min_vaddr` and its file range
/// fits in a machine word.
pub open spec fn segments_readable(s: Seq<u8>, h: ElfHeader, min_vaddr: u64) -> bool {
    forall|i: int| 0 <= i < h.phnum ==> {
        &&& #[trigger] ph_at(h, i) + 4 <= s.len()
        &&& ph_type(s, h, i) == 1 ==> {
            &&& ph_at(h, i) + 40 <= s.len()
            &&& ph_vaddr(s, h, i) >= min_vaddr
            &&& ph_offset(s, h, i) <= usize::MAX
            &&& ph_offset(s, h, i) + ph_filesz(s, h, i) <= usize::MAX
        }
    }
}

/// The copies for the first `n` program headers: for each loadable
/// segment whose file range lies in the file and is not empty, its bytes
/// go to its address less `min_vaddr`.
pub open spec fn copies(s: Seq<u8>, h: ElfHeader, min_vaddr: u64, n: nat) -> Seq<SegmentCopy>
    decreases n,
{
    if n == 0 {
        seq![]
    } else {
        let prev = copies(s, h, min_vaddr, (n - 1) as nat);
        let i = n - 1;
        let off = ph_offset(s, h, i);
        let fsz = ph_filesz(s, h, i);
        if ph_type(s, h, i) == 1 && off + fsz <= s.len() && fsz > 0 {
            prev.push(SegmentCopy { src_offset: off as usize, dest_offset: (ph_vaddr(s, h, i) - min_vaddr) as u64, len: fsz as u64 })
        } else {
            prev
        }
    }
}

/// The copies that place the loadable segments in an image whose first
/// byte is at virtual address `min_vaddr`.
pub fn segment_copies(data: &[u8], header: &ElfHeader, min_vaddr: u64) -> (v: Vec<SegmentCopy>)
    requires
        headers_addressable(*header),
        segments_readable(data@, *header, min_vaddr),
    ensures
        v@ == copies(data@, *header, min_vaddr, header.phnum as nat),
{
    let mut v: Vec<SegmentCopy> = Vec::new();
    let phnum = header.phnum as usize;
    let mut i: usize = 0;
    while i < phnum
        invariant
            phnum == header.phnum,
            i <= phnum,
            headers_addressable(*header),
            segments_readable(data@, *header, min_vaddr),
            v@ == copies(data@, *header, min_vaddr, i as nat),
        decreases phnum - i,
    {
        proof {
            assert(ph_at(*header, i as int) + 56 <= usize::MAX);
            assert(i * header.phentsize <= ph_at(*header, i as int));
            assert(ph_at(*header, i as int) + 4 <= data@.len());
        }
        let ph_offset = header.phoff as usize + i * header.phentsize as usize;
        let p_type = read_le(data, ph_offset, 4);
        if p_type == 1 {
            let p_offset = read_le(data, ph_offset + 8, 8);
            let p_vaddr = read_le(data, ph_offset + 16, 8);
            let p_filesz = read_le(data, ph_offset + 32, 8);
            let dest_offset = p_vaddr - min_vaddr;
            let src_offset = p_offset as usize;
            if src_offset + p_filesz as usize <= data.len() && p_filesz > 0 {
                v.push(SegmentCopy { src_offset, dest_offset, len: p_filesz });
            }
        }
        i += 1;
    }
    v
}

/// Where the kernel lands: loaded at `phys_start`, running from
/// `min_vaddr`, entered at the entry address moved by the same offset.
pub fn kernel_info(phys_start: u64, min_vaddr: u64, entry: u64, size: u64) -> (k: KernelInfo)
    requires
        min_vaddr <= entry,
        phys_start + (entry - min_vaddr) <= u64::MAX,
    ensures
        k == (KernelInfo { phys_start, virt_start: min_vaddr, entry_point: (phys_start + (entry - min_vaddr)) as u64, size }),
{
    KernelInfo { phys_start, virt_start: min_vaddr, entry_point: phys_start + (entry - min_vaddr), size }
}

} // verus!
