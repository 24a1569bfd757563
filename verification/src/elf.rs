//! ELF loading: the 64-bit header and program-header fields the loader
//! needs, read directly out of the file bytes, the suitability checks
//! for this harness, and the per-segment load plan whose regions the
//! emulation capability maps and fills.

use vstd::prelude::*;

use crate::emulator::Perm;

verus! {

/// The four ELF magic bytes, as the little-endian word at offset 0.
pub const ELFMAGIC: u32 = 0x464c457f;

/// Identification value for little-endian data encoding.
pub const LITTLEENDIAN: u8 = 1;

/// Object-file type of an executable.
pub const TYPEEXEC: u16 = 2;

/// Identification value for the 64-bit class.
pub const ARCH64: u8 = 2;

/// Machine number of the RISCV architecture.
pub const RISCV: u16 = 0xf3;

/// Program-header type of a loadable segment.
pub const LOADSEGMENT: u32 = 1;

/// Size of one 64-bit program-header entry.
pub const PHENTSIZE64: u16 = 56;

/// The little-endian 16-bit value at `off`.
pub open spec fn le16_at(s: Seq<u8>, off: int) -> u16 {
    (s[off] as u16) | ((s[off + 1] as u16) << 8)
}

/// The little-endian 32-bit value at `off`.
pub open spec fn le32_at(s: Seq<u8>, off: int) -> u32 {
    (s[off] as u32) | ((s[off + 1] as u32) << 8) | ((s[off + 2] as u32) << 16) | ((s[off
        + 3] as u32) << 24)
}

/// The little-endian 64-bit value at `off`.
pub open spec fn le64_at(s: Seq<u8>, off: int) -> u64 {
    (s[off] as u64) | ((s[off + 1] as u64) << 8) | ((s[off + 2] as u64) << 16) | ((s[off
        + 3] as u64) << 24) | ((s[off + 4] as u64) << 32) | ((s[off + 5] as u64) << 40) | ((s[off
        + 6] as u64) << 48) | ((s[off + 7] as u64) << 56)
}

/// Read the little-endian 16-bit value at `off`.
pub fn read_u16_le(data: &Vec<u8>, off: usize) -> (r: u16)
    requires
        off + 2 <= data@.len(),
    ensures
        r == le16_at(data@, off as int),
{
    let _n = data.len();
    (data[off] as u16) | ((data[off + 1] as u16) << 8)
}

/// Read the little-endian 32-bit value at `off`.
pub fn read_u32_le(data: &Vec<u8>, off: usize) -> (r: u32)
    requires
        off + 4 <= data@.len(),
    ensures
        r == le32_at(data@, off as int),
{
    let _n = data.len();
    (data[off] as u32) | ((data[off + 1] as u32) << 8) | ((data[off + 2] as u32) << 16) | ((data[off
        + 3] as u32) << 24)
}

/// Read the little-endian 64-bit value at `off`.
pub fn read_u64_le(data: &Vec<u8>, off: usize) -> (r: u64)
    requires
        off + 8 <= data@.len(),
    ensures
        r == le64_at(data@, off as int),
{
    let _n = data.len();
    (data[off] as u64) | ((data[off + 1] as u64) << 8) | ((data[off + 2] as u64) << 16) | ((data[off
        + 3] as u64) << 24) | ((data[off + 4] as u64) << 32) | ((data[off + 5] as u64) << 40)
        | ((data[off + 6] as u64) << 48) | ((data[off + 7] as u64) << 56)
}

/// The ELF header fields this harness reads.
#[derive(Debug, Copy, Clone, Eq, PartialEq, Structural)]
pub struct ElfHeader {
    /// The magic word at the start of the file.
    pub magic: u32,
    /// 32- or 64-bit class byte.
    pub bitsize: u8,
    /// Data-encoding byte.
    pub endian: u8,
    /// Object-file type.
    pub o_type: u16,
    /// Machine architecture number.
    pub machine: u16,
    /// Program entry point.
    pub entry_addr: u64,
    /// File offset of the program-header table.
    pub phoff: u64,
    /// Number of program-header entries.
    pub phnum: u16,
    /// Size of one program-header entry.
    pub phentsize: u16,
}

/// Why a binary cannot be loaded.
#[derive(Debug, Copy, Clone, Eq, PartialEq, Structural)]
pub enum ElfError {
    /// The file ends before a field the loader needs.
    Truncated,
    /// The magic value does not match ELF.
    BadMagic,
    /// The data encoding is not little-endian.
    BadEndian,
    /// The file is not an executable.
    NotExecutable,
    /// The architecture is not 64-bit.
    Not64Bit,
    /// The machine is not the RISCV architecture.
    NotRiscv,
    /// A program-header entry is malformed or its segment cannot be laid
    /// out at the alignment the emulation capability requires.
    BadSegment,
}

impl ElfError {
    /// A fixed description of the condition, for the host's error report.
    pub fn describe(&self) -> &'static str {
        match self {
            ElfError::Truncated => "File ends before a required field",
            ElfError::BadMagic => "Magic value does not match ELF",
            ElfError::BadEndian => "Endian is not Little Endian",
            ElfError::NotExecutable => "Elf is not an executeable",
            ElfError::Not64Bit => "Architecture is not 64-bit",
            ElfError::NotRiscv => "Elf is not RISCV architecture",
            ElfError::BadSegment => "A loadable segment is malformed",
        }
    }
}

/// The header fields as they lie in the file bytes.
pub open spec fn header_spec(s: Seq<u8>) -> ElfHeader {
    ElfHeader {
        magic: le32_at(s, 0),
        bitsize: s[4],
        endian: s[5],
        o_type: le16_at(s, 16),
        machine: le16_at(s, 18),
        entry_addr: le64_at(s, 24),
        phoff: le64_at(s, 32),
        phnum: le16_at(s, 56),
        phentsize: le16_at(s, 54),
    }
}

/// Read the ELF header out of the file bytes.
pub fn parse_elf_header(data: &Vec<u8>) -> (r: Result<ElfHeader, ElfError>)
    ensures
        data@.len() < 64 ==> r == Err::<ElfHeader, ElfError>(ElfError::Truncated),
        data@.len() >= 64 ==> r == Ok::<ElfHeader, ElfError>(header_spec(data@)),
{
    if data.len() < 64 {
        return Err(ElfError::Truncated);
    }
    Ok(
        ElfHeader {
            magic: read_u32_le(data, 0),
            bitsize: data[4],
            endian: data[5],
            o_type: read_u16_le(data, 16),
            machine: read_u16_le(data, 18),
            entry_addr: read_u64_le(data, 24),
            phoff: read_u64_le(data, 32),
            phnum: read_u16_le(data, 56),
            phentsize: read_u16_le(data, 54),
        },
    )
}

/// The binary is suitable for this fuzzer: ELF, little-endian, an
/// executable, 64-bit, RISCV.
pub open spec fn header_ok(hdr: ElfHeader) -> bool {
    hdr.magic == ELFMAGIC && hdr.endian == LITTLEENDIAN && hdr.o_type == TYPEEXEC && hdr.bitsize
        == ARCH64 && hdr.machine == RISCV
}

/// Verify that the binary is suitable for this fuzzer (64-bit, ELF,
/// little-endian, executable, RISCV), reporting the first check that
/// fails.
pub fn verify_elf_hdr(elf_hdr: ElfHeader) -> (r: Result<(), ElfError>)
    ensures
        r is Ok <==> header_ok(elf_hdr),
        elf_hdr.magic != ELFMAGIC ==> r == Err::<(), ElfError>(ElfError::BadMagic),
        elf_hdr.magic == ELFMAGIC && elf_hdr.endian != LITTLEENDIAN ==> r == Err::<(), ElfError>(
            ElfError::BadEndian,
        ),
        elf_hdr.magic == ELFMAGIC && elf_hdr.endian == LITTLEENDIAN && elf_hdr.o_type != TYPEEXEC
            ==> r == Err::<(), ElfError>(ElfError::NotExecutable),
        elf_hdr.magic == ELFMAGIC && elf_hdr.endian == LITTLEENDIAN && elf_hdr.o_type == TYPEEXEC
            && elf_hdr.bitsize != ARCH64 ==> r == Err::<(), ElfError>(ElfError::Not64Bit),
        elf_hdr.magic == ELFMAGIC && elf_hdr.endian == LITTLEENDIAN && elf_hdr.o_type == TYPEEXEC
            && elf_hdr.bitsize == ARCH64 && elf_hdr.machine != RISCV ==> r == Err::<(), ElfError>(
            ElfError::NotRiscv,
        ),
{
    if elf_hdr.magic != ELFMAGIC {
        return Err(ElfError::BadMagic);
    }
    if elf_hdr.endian != LITTLEENDIAN {
        return Err(ElfError::BadEndian);
    }
    if elf_hdr.o_type != TYPEEXEC {
        return Err(ElfError::NotExecutable);
    }
    if elf_hdr.bitsize != ARCH64 {
        return Err(ElfError::Not64Bit);
    }
    if elf_hdr.machine != RISCV {
        return Err(ElfError::NotRiscv);
    }
    Ok(())
}

/// The program-header fields the loader reads.
#[derive(Debug, Copy, Clone, Eq, PartialEq, Structural)]
pub struct ProgramHeader {
    /// Segment type: only loadable segments are mapped.
    pub seg_type: u32,
    /// Permission flag bits (1 execute, 2 write, 4 read).
    pub flags: u32,
    /// File offset of the segment's bytes.
    pub offset: u64,
    /// Virtual address the segment loads at.
    pub vaddr: u64,
    /// Number of bytes stored in the file.
    pub filesz: u64,
    /// Number of bytes the segment occupies in memory.
    pub memsz: u64,
    /// Required alignment.
    pub align: u64,
}

/// The program-header fields as they lie at `base` in the file bytes.
pub open spec fn phdr_spec(s: Seq<u8>, base: int) -> ProgramHeader {
    ProgramHeader {
        seg_type: le32_at(s, base),
        flags: le32_at(s, base + 4),
        offset: le64_at(s, base + 8),
        vaddr: le64_at(s, base + 16),
        filesz: le64_at(s, base + 32),
        memsz: le64_at(s, base + 40),
        align: le64_at(s, base + 48),
    }
}

/// Read the program header at `base`.
pub fn parse_program_header(data: &Vec<u8>, base: usize) -> (r: ProgramHeader)
    requires
        base + 56 <= data@.len(),
    ensures
        r == phdr_spec(data@, base as int),
{
    let _n = data.len();
    ProgramHeader {
        seg_type: read_u32_le(data, base),
        flags: read_u32_le(data, base + 4),
        offset: read_u64_le(data, base + 8),
        vaddr: read_u64_le(data, base + 16),
        filesz: read_u64_le(data, base + 32),
        memsz: read_u64_le(data, base + 40),
        align: read_u64_le(data, base + 48),
    }
}

/// The permissions a segment's flag bits grant.
pub open spec fn seg_perms(flags: u32) -> Perm {
    Perm { read: flags & 4 != 0, write: flags & 2 != 0, execute: flags & 1 != 0 }
}

/// The page-grained base address a segment is mapped at.
pub open spec fn seg_aligned_addr(ph: ProgramHeader) -> u64 {
    ph.vaddr & !((ph.align - 1) as u64)
}

/// The page-grained size a segment is mapped with.
pub open spec fn seg_aligned_size(ph: ProgramHeader) -> u64 {
    (((ph.align - 1 + ph.memsz) as u64) & !((ph.align - 1) as u64))
}

/// A loadable segment passes layout checks: its file bytes exist, its
/// memory image is no smaller than its file image, its alignment is a
/// nonzero power of two that the arithmetic cannot overflow, and the
/// aligned region covers the whole memory image.
pub open spec fn seg_checks_ok(s: Seq<u8>, ph: ProgramHeader) -> bool {
    &&& ph.filesz <= ph.memsz
    &&& ph.offset + ph.filesz <= s.len()
    &&& ph.align > 0
    &&& ph.align & ((ph.align - 1) as u64) == 0
    &&& ph.align - 1 + ph.memsz <= u64::MAX
    &&& ph.memsz <= usize::MAX
    &&& seg_aligned_size(ph) + seg_aligned_addr(ph) >= ph.vaddr + ph.memsz
}

/// Every program-header entry before `upto` is either not loadable or
/// passes the layout checks.
pub open spec fn segs_ok_upto(s: Seq<u8>, phoff: int, upto: int) -> bool {
    forall|i: int|
        0 <= i < upto ==> (#[trigger] phdr_spec(s, phoff + i * 56)).seg_type == LOADSEGMENT
            ==> seg_checks_ok(s, phdr_spec(s, phoff + i * 56))
}

/// The whole file can be loaded: long enough, a suitable header, 64-bit
/// program-header entries that all lie within the file, and every
/// loadable segment laid out consistently.
pub open spec fn elf_ok(s: Seq<u8>) -> bool {
    &&& s.len() >= 64
    &&& header_ok(header_spec(s))
    &&& header_spec(s).phentsize == PHENTSIZE64
    &&& header_spec(s).phoff + header_spec(s).phnum * 56 <= s.len()
    &&& segs_ok_upto(s, header_spec(s).phoff as int, header_spec(s).phnum as int)
}

/// The indices of the loadable program headers before `upto`, in file
/// order.
pub open spec fn load_indices(s: Seq<u8>, phoff: int, upto: nat) -> Seq<int>
    decreases upto,
{
    if upto == 0 {
        Seq::<int>::empty()
    } else {
        let prev = load_indices(s, phoff, (upto - 1) as nat);
        if phdr_spec(s, phoff + (upto - 1) * 56).seg_type == LOADSEGMENT {
            prev.push(upto - 1)
        } else {
            prev
        }
    }
}

/// One region of the load plan, ready for the emulation capability: map
/// `aligned_size` bytes at `aligned_addr` with `perms`, then write
/// `data` at `vaddr`.
#[derive(Debug, Clone, Eq, PartialEq)]
pub struct LoadSegment {
    /// The virtual address the segment's bytes are written at.
    pub vaddr: u64,
    /// The mapped region's aligned base.
    pub aligned_addr: u64,
    /// The mapped region's aligned size.
    pub aligned_size: u64,
    /// The region's access permissions.
    pub perms: Perm,
    /// The segment's memory image: its file bytes, zero-padded to its
    /// memory size.
    pub data: Vec<u8>,
}

/// A segment of the plan realizes the program header `ph` exactly.
pub open spec fn seg_matches(s: Seq<u8>, ph: ProgramHeader, seg: LoadSegment) -> bool {
    &&& seg.vaddr == ph.vaddr
    &&& seg.aligned_addr == seg_aligned_addr(ph)
    &&& seg.aligned_size == seg_aligned_size(ph)
    &&& seg.perms == seg_perms(ph.flags)
    &&& seg.data@.len() == ph.memsz
    &&& seg.data@.subrange(0, ph.filesz as int) == s.subrange(
        ph.offset as int,
        ph.offset + ph.filesz,
    )
    &&& forall|j: int| ph.filesz <= j < ph.memsz ==> seg.data@[j] == 0
}

/// The whole load plan: the regions to map and fill, in file order, and
/// the entry point to start at.
#[derive(Debug, Clone, Eq, PartialEq)]
pub struct LoadPlan {
    /// One entry per loadable segment.
    pub segments: Vec<LoadSegment>,
    /// The program counter to start execution at.
    pub entry: u64,
}

/// Parse the binary's loadable segments into a load plan.  Succeeds
/// exactly when the file is a well-formed RISCV64 little-endian
/// executable whose loadable segments all fit their alignment; the plan
/// then holds, in file order, one exactly-determined region per loadable
/// segment, and the header's entry point.
pub fn load_elf_segments(target: &Vec<u8>) -> (r: Result<LoadPlan, ElfError>)
    ensures
        r is Ok <==> elf_ok(target@),
        target@.len() < 64 ==> r == Err::<LoadPlan, ElfError>(ElfError::Truncated),
        target@.len() >= 64 && !header_ok(header_spec(target@)) ==> (r matches Err(e) && e
            == (if header_spec(target@).magic != ELFMAGIC {
            ElfError::BadMagic
        } else if header_spec(target@).endian != LITTLEENDIAN {
            ElfError::BadEndian
        } else if header_spec(target@).o_type != TYPEEXEC {
            ElfError::NotExecutable
        } else if header_spec(target@).bitsize != ARCH64 {
            ElfError::Not64Bit
        } else {
            ElfError::NotRiscv
        })),
        r matches Ok(plan) ==> {
            let s = target@;
            let hdr = header_spec(s);
            let idxs = load_indices(s, hdr.phoff as int, hdr.phnum as nat);
            &&& plan.entry == hdr.entry_addr
            &&& plan.segments@.len() == idxs.len()
            &&& forall|k: int|
                0 <= k < idxs.len() ==> seg_matches(
                    s,
                    phdr_spec(s, hdr.phoff + #[trigger] idxs[k] * 56),
                    plan.segments@[k],
                )
        },
{
    let hdr = match parse_elf_header(target) {
        Ok(h) => h,
        Err(e) => {
            return Err(e);
        },
    };
    if let Err(e) = verify_elf_hdr(hdr) {
        return Err(e);
    }
    if hdr.phentsize != PHENTSIZE64 {
        return Err(ElfError::BadSegment);
    }
    let len = target.len();
    if hdr.phoff > len as u64 || (hdr.phnum as u64) * 56 > len as u64 - hdr.phoff {
        return Err(ElfError::Truncated);
    }
    let phoff = hdr.phoff as usize;
    let phnum = hdr.phnum as usize;
    let mut segments: Vec<LoadSegment> = Vec::new();
    let mut i: usize = 0;
    while i < phnum
        invariant
            0 <= i <= phnum,
            len == target@.len(),
            len >= 64,
            phoff + phnum * 56 <= len,
            hdr == header_spec(target@),
            header_ok(hdr),
            hdr.phentsize == PHENTSIZE64,
            phoff as int == hdr.phoff as int,
            phnum as int == hdr.phnum as int,
            segs_ok_upto(target@, phoff as int, i as int),
            segments@.len() == load_indices(target@, phoff as int, i as nat).len(),
            forall|k: int|
                0 <= k < segments@.len() ==> seg_matches(
                    target@,
                    phdr_spec(
                        target@,
                        phoff + #[trigger] load_indices(target@, phoff as int, i as nat)[k] * 56,
                    ),
                    segments@[k],
                ),
        decreases phnum - i,
    {
        let base = phoff + i * 56;
        let phdr = parse_program_header(target, base);
        if phdr.seg_type == LOADSEGMENT {
            proof {
                assert(phdr == phdr_spec(target@, phoff + i * 56));
            }
            // Layout checks: reject a segment the loader could not place
            // faithfully rather than load an unfaithful image.
            if phdr.filesz > phdr.memsz {
                proof {
                    assert(!seg_checks_ok(target@, phdr));
                }
                return Err(ElfError::BadSegment);
            }
            if phdr.offset > len as u64 || phdr.filesz > len as u64 - phdr.offset {
                proof {
                    assert(!seg_checks_ok(target@, phdr));
                }
                return Err(ElfError::Truncated);
            }
            if phdr.align == 0 || (phdr.align & (phdr.align - 1)) != 0 {
                proof {
                    assert(!seg_checks_ok(target@, phdr));
                }
                return Err(ElfError::BadSegment);
            }
            if phdr.memsz > u64::MAX - (phdr.align - 1) {
                proof {
                    assert(!seg_checks_ok(target@, phdr));
                }
                return Err(ElfError::BadSegment);
            }
            if phdr.memsz > usize::MAX as u64 {
                proof {
                    assert(!seg_checks_ok(target@, phdr));
                }
                return Err(ElfError::BadSegment);
            }
            let mask = phdr.align - 1;
            let aligned_size = (mask + phdr.memsz) & !mask;
            let aligned_addr = phdr.vaddr & !mask;
            // The aligned region must still cover the whole memory image.
            if (aligned_size as u128) + (aligned_addr as u128) < (phdr.vaddr as u128) + (
            phdr.memsz as u128) {
                proof {
                    assert(!seg_checks_ok(target@, phdr));
                }
                return Err(ElfError::BadSegment);
            }
            proof {
                assert(seg_checks_ok(target@, phdr));
            }
            // The segment's memory image: its file bytes, padded with
            // zeroes that exist in memory but not in the file.
            let foff = phdr.offset as usize;
            let fsz = phdr.filesz as usize;
            let msz = phdr.memsz as usize;
            proof {
                assert(foff == phdr.offset && fsz == phdr.filesz && msz == phdr.memsz);
            }
            let mut data: Vec<u8> = Vec::new();
            proof {
                assert(data@ =~= target@.subrange(foff as int, foff as int));
            }
            let mut j: usize = 0;
            while j < fsz
                invariant
                    0 <= j <= fsz,
                    len == target@.len(),
                    foff + fsz <= len,
                    data@ == target@.subrange(foff as int, foff + j),
                decreases fsz - j,
            {
                data.push(target[foff + j]);
                proof {
                    assert(data@ =~= target@.subrange(foff as int, foff + j + 1));
                }
                j = j + 1;
            }
            proof {
                assert(data@.subrange(0, fsz as int) =~= target@.subrange(
                    foff as int,
                    foff + fsz,
                ));
            }
            while j < msz
                invariant
                    fsz <= j <= msz,
                    len == target@.len(),
                    foff + fsz <= len,
                    data@.len() == j,
                    data@.subrange(0, fsz as int) == target@.subrange(foff as int, foff + fsz),
                    forall|q: int| fsz <= q < j ==> data@[q] == 0,
                decreases msz - j,
            {
                let ghost pre = data@;
                data.push(0);
                proof {
                    assert(data@.subrange(0, fsz as int) =~= pre.subrange(0, fsz as int));
                }
                j = j + 1;
            }
            let seg = LoadSegment {
                vaddr: phdr.vaddr,
                aligned_addr,
                aligned_size,
                perms: Perm {
                    read: phdr.flags & 4 != 0,
                    write: phdr.flags & 2 != 0,
                    execute: phdr.flags & 1 != 0,
                },
                data,
            };
            proof {
                assert(seg_matches(target@, phdr, seg));
            }
            segments.push(seg);
            proof {
                let ghost idxs = load_indices(target@, phoff as int, (i + 1) as nat);
                assert(idxs =~= load_indices(target@, phoff as int, i as nat).push(i as int));
            }
        } else {
            proof {
                assert(load_indices(target@, phoff as int, (i + 1) as nat) =~= load_indices(
                    target@,
                    phoff as int,
                    i as nat,
                ));
            }
        }
        i = i + 1;
    }
    Ok(LoadPlan { segments, entry: hdr.entry_addr })
}

} // verus!
