//! Instrumentation-hook decisions: the architecture syscall tables, the
//! memory bound check, dirty-page tracking, edge coverage, and the
//! allocator intercepts.  Each function here is the body of one hook
//! callback, phrased over the values the emulation capability hands the
//! callback; the caller registers the callbacks and applies the returned
//! effects.

use vstd::prelude::*;

use crate::emulator::{
    Emulator,
    Fault,
    HarnessError,
    lemma_files_wf_transfer,
    lemma_heap_wf_transfer,
};
use crate::config::LibcOpt;

verus! {

/// The architecture/ABI combinations the dispatcher understands, chosen
/// once at setup.
#[derive(Debug, Copy, Clone, Eq, PartialEq, Structural)]
pub enum Arch {
    /// RISCV64 Linux: syscalls arrive as interrupt 8.
    Riscv64,
    /// 32-bit x86 Linux: syscalls arrive as interrupt 0x80.
    X86_32,
    /// 64-bit x86 Linux: syscalls arrive through the syscall instruction.
    X86_64,
}

/// The canonical syscall handlers the tables map raw numbers onto.  Not
/// every architecture maps every handler: a table only holds what that
/// ABI's libc surface actually issues.
#[derive(Debug, Copy, Clone, Eq, PartialEq, Structural)]
pub enum SyscallKind {
    Read,
    Write,
    Open,
    Openat,
    Close,
    Fstat,
    Fstatat,
    Brk,
    Mmap,
    Exit,
    ExitGroup,
    Getuid,
    Geteuid,
    Getrandom,
    Access,
    ArchPrctl,
    Times,
}

/// The RISCV64 Linux syscall numbers the harness maps.
pub open spec fn riscv64_table(num: u64) -> Option<SyscallKind> {
    if num == 50 {
        Some(SyscallKind::Openat)
    } else if num == 57 {
        Some(SyscallKind::Close)
    } else if num == 63 {
        Some(SyscallKind::Read)
    } else if num == 64 {
        Some(SyscallKind::Write)
    } else if num == 79 {
        Some(SyscallKind::Fstatat)
    } else if num == 80 {
        Some(SyscallKind::Fstat)
    } else if num == 93 {
        Some(SyscallKind::Exit)
    } else if num == 94 {
        Some(SyscallKind::ExitGroup)
    } else if num == 174 {
        Some(SyscallKind::Getuid)
    } else if num == 175 {
        Some(SyscallKind::Geteuid)
    } else if num == 214 {
        Some(SyscallKind::Brk)
    } else if num == 222 {
        Some(SyscallKind::Mmap)
    } else if num == 1024 {
        Some(SyscallKind::Open)
    } else if num == 1033 {
        Some(SyscallKind::Access)
    } else {
        None
    }
}

/// The x86-64 Linux syscall numbers the harness maps.
pub open spec fn x86_64_table(num: u64) -> Option<SyscallKind> {
    if num == 0 {
        Some(SyscallKind::Read)
    } else if num == 1 {
        Some(SyscallKind::Write)
    } else if num == 2 {
        Some(SyscallKind::Open)
    } else if num == 3 {
        Some(SyscallKind::Close)
    } else if num == 5 {
        Some(SyscallKind::Fstat)
    } else if num == 9 {
        Some(SyscallKind::Mmap)
    } else if num == 12 {
        Some(SyscallKind::Brk)
    } else if num == 21 {
        Some(SyscallKind::Access)
    } else if num == 60 {
        Some(SyscallKind::Exit)
    } else if num == 102 {
        Some(SyscallKind::Getuid)
    } else if num == 107 {
        Some(SyscallKind::Geteuid)
    } else if num == 158 {
        Some(SyscallKind::ArchPrctl)
    } else if num == 231 {
        Some(SyscallKind::ExitGroup)
    } else if num == 257 {
        Some(SyscallKind::Openat)
    } else if num == 262 {
        Some(SyscallKind::Fstatat)
    } else if num == 318 {
        Some(SyscallKind::Getrandom)
    } else {
        None
    }
}

/// The x86-32 Linux syscall numbers the harness maps.
pub open spec fn x86_32_table(num: u64) -> Option<SyscallKind> {
    if num == 1 {
        Some(SyscallKind::Exit)
    } else if num == 3 {
        Some(SyscallKind::Read)
    } else if num == 4 {
        Some(SyscallKind::Write)
    } else if num == 5 {
        Some(SyscallKind::Open)
    } else if num == 6 {
        Some(SyscallKind::Close)
    } else if num == 24 {
        Some(SyscallKind::Getuid)
    } else if num == 43 {
        Some(SyscallKind::Times)
    } else if num == 45 {
        Some(SyscallKind::Brk)
    } else if num == 49 {
        Some(SyscallKind::Geteuid)
    } else if num == 90 {
        Some(SyscallKind::Mmap)
    } else if num == 108 {
        Some(SyscallKind::Fstat)
    } else if num == 252 {
        Some(SyscallKind::ExitGroup)
    } else if num == 295 {
        Some(SyscallKind::Openat)
    } else if num == 355 {
        Some(SyscallKind::Getrandom)
    } else {
        None
    }
}

/// The syscall table of the configured architecture.
pub open spec fn syscall_table(arch: Arch, num: u64) -> Option<SyscallKind> {
    match arch {
        Arch::Riscv64 => riscv64_table(num),
        Arch::X86_64 => x86_64_table(num),
        Arch::X86_32 => x86_32_table(num),
    }
}

/// Map a raw syscall number through the configured architecture's table.
/// An unmapped number means the harness does not understand this target's
/// syscall surface and must not guess: the whole run stops with the
/// number in hand, and nothing is ever returned to the target.
pub fn classify_syscall(arch: Arch, num: u64) -> (r: Result<SyscallKind, HarnessError>)
    ensures
        syscall_table(arch, num) matches Some(k) ==> r == Ok::<SyscallKind, HarnessError>(k),
        syscall_table(arch, num) is None ==> r == Err::<SyscallKind, HarnessError>(
            HarnessError::UnimplementedSyscall(num),
        ),
{
    let table: Option<SyscallKind> = match arch {
        Arch::Riscv64 => {
            if num == 50 {
                Some(SyscallKind::Openat)
            } else if num == 57 {
                Some(SyscallKind::Close)
            } else if num == 63 {
                Some(SyscallKind::Read)
            } else if num == 64 {
                Some(SyscallKind::Write)
            } else if num == 79 {
                Some(SyscallKind::Fstatat)
            } else if num == 80 {
                Some(SyscallKind::Fstat)
            } else if num == 93 {
                Some(SyscallKind::Exit)
            } else if num == 94 {
                Some(SyscallKind::ExitGroup)
            } else if num == 174 {
                Some(SyscallKind::Getuid)
            } else if num == 175 {
                Some(SyscallKind::Geteuid)
            } else if num == 214 {
                Some(SyscallKind::Brk)
            } else if num == 222 {
                Some(SyscallKind::Mmap)
            } else if num == 1024 {
                Some(SyscallKind::Open)
            } else if num == 1033 {
                Some(SyscallKind::Access)
            } else {
                None
            }
        },
        Arch::X86_64 => {
            if num == 0 {
                Some(SyscallKind::Read)
            } else if num == 1 {
                Some(SyscallKind::Write)
            } else if num == 2 {
                Some(SyscallKind::Open)
            } else if num == 3 {
                Some(SyscallKind::Close)
            } else if num == 5 {
                Some(SyscallKind::Fstat)
            } else if num == 9 {
                Some(SyscallKind::Mmap)
            } else if num == 12 {
                Some(SyscallKind::Brk)
            } else if num == 21 {
                Some(SyscallKind::Access)
            } else if num == 60 {
                Some(SyscallKind::Exit)
            } else if num == 102 {
                Some(SyscallKind::Getuid)
            } else if num == 107 {
                Some(SyscallKind::Geteuid)
            } else if num == 158 {
                Some(SyscallKind::ArchPrctl)
            } else if num == 231 {
                Some(SyscallKind::ExitGroup)
            } else if num == 257 {
                Some(SyscallKind::Openat)
            } else if num == 262 {
                Some(SyscallKind::Fstatat)
            } else if num == 318 {
                Some(SyscallKind::Getrandom)
            } else {
                None
            }
        },
        Arch::X86_32 => {
            if num == 1 {
                Some(SyscallKind::Exit)
            } else if num == 3 {
                Some(SyscallKind::Read)
            } else if num == 4 {
                Some(SyscallKind::Write)
            } else if num == 5 {
                Some(SyscallKind::Open)
            } else if num == 6 {
                Some(SyscallKind::Close)
            } else if num == 24 {
                Some(SyscallKind::Getuid)
            } else if num == 43 {
                Some(SyscallKind::Times)
            } else if num == 45 {
                Some(SyscallKind::Brk)
            } else if num == 49 {
                Some(SyscallKind::Geteuid)
            } else if num == 90 {
                Some(SyscallKind::Mmap)
            } else if num == 108 {
                Some(SyscallKind::Fstat)
            } else if num == 252 {
                Some(SyscallKind::ExitGroup)
            } else if num == 295 {
                Some(SyscallKind::Openat)
            } else if num == 355 {
                Some(SyscallKind::Getrandom)
            } else {
                None
            }
        },
    };
    match table {
        Some(kind) => Ok(kind),
        None => Err(HarnessError::UnimplementedSyscall(num)),
    }
}

/// True when the interrupt number is the one that carries syscalls for
/// an interrupt-style ABI.
pub open spec fn interrupt_carries_syscall(arch: Arch, intno: u32) -> bool {
    (arch == Arch::Riscv64 && intno == 8) || (arch == Arch::X86_32 && intno == 0x80)
}

/// Check an incoming interrupt number.  Only the configured ABI's
/// syscall interrupt is understood; any other interrupt stops the run.
pub fn check_interrupt(arch: Arch, intno: u32) -> (r: Result<(), HarnessError>)
    ensures
        r is Ok <==> interrupt_carries_syscall(arch, intno),
        r matches Err(e) ==> e == HarnessError::UnsupportedInterrupt(intno),
{
    match arch {
        Arch::Riscv64 => {
            if intno == 8 {
                Ok(())
            } else {
                Err(HarnessError::UnsupportedInterrupt(intno))
            }
        },
        Arch::X86_32 => {
            if intno == 0x80 {
                Ok(())
            } else {
                Err(HarnessError::UnsupportedInterrupt(intno))
            }
        },
        Arch::X86_64 => Err(HarnessError::UnsupportedInterrupt(intno)),
    }
}

/// One mapped region of emulated memory, with its inclusive end address,
/// as the emulation capability reports them.
#[derive(Debug, Copy, Clone, Eq, PartialEq, Structural)]
pub struct MemRegion {
    pub begin: u64,
    pub end: u64,
}

/// A region list is well formed when every region is non-empty and its
/// inclusive end leaves room for the exclusive bound.
pub open spec fn regions_wf(rs: Seq<MemRegion>) -> bool {
    forall|i: int| 0 <= i < rs.len() ==> (#[trigger] rs[i]).begin <= rs[i].end < u64::MAX
}

/// The kinds of memory event the bound check classifies, mirroring the
/// emulation capability's access reporting.
#[derive(Debug, Copy, Clone, Eq, PartialEq, Structural)]
pub enum AccessKind {
    Read,
    Write,
    Fetch,
    ReadUnmapped,
    WriteUnmapped,
    WriteProt,
    ReadProt,
    FetchProt,
    ReadAfter,
}

/// The fault recorded for a rejected access of each kind.
pub open spec fn classify_access(kind: AccessKind) -> Fault {
    match kind {
        AccessKind::Read => Fault::ReadUnmapped,
        AccessKind::Write => Fault::WriteUnmapped,
        AccessKind::Fetch => Fault::FetchUnmapped,
        AccessKind::ReadUnmapped => Fault::ReadUnmapped,
        AccessKind::WriteUnmapped => Fault::WriteUnmapped,
        AccessKind::WriteProt => Fault::WriteProt,
        AccessKind::ReadProt => Fault::ReadProt,
        AccessKind::FetchProt => Fault::FetchProt,
        AccessKind::ReadAfter => Fault::ReadUnmapped,
    }
}

/// An access is admitted only when its whole range lies inside one
/// mapped region and inside that region's real (non-padding) extent.
pub open spec fn access_ok(rs: Seq<MemRegion>, real_size: u64, address: u64, size: u64) -> bool {
    exists|i: int|
        0 <= i < rs.len() && address >= (#[trigger] rs[i]).begin && address + size <= rs[i].end + 1
            && address + size <= rs[i].begin + real_size
}

/// The bound-check hook: fires on every memory access before it commits.
/// An access that leaves every mapped region, or passes the real extent
/// of the one it is in, is classified by its kind into the error flag and
/// the case stops; the access itself never reaches dirty tracking.
pub fn bound_check(
    emu: &mut Emulator,
    regions: &Vec<MemRegion>,
    real_size: u64,
    kind: AccessKind,
    address: u64,
    size: usize,
) -> (ok: bool)
    requires
        old(emu).wf(),
        regions_wf(regions@),
        address + size <= u64::MAX,
    ensures
        final(emu).wf(),
        Emulator::heap_unchanged(*old(emu), *final(emu)),
        Emulator::config_unchanged(*old(emu), *final(emu)),
        final(emu).fd_list@ == old(emu).fd_list@,
        final(emu).dirty@ == old(emu).dirty@,
        final(emu).cov_count == old(emu).cov_count,
        final(emu).prev_block == old(emu).prev_block,
        ok <==> access_ok(regions@, real_size, address, size as u64),
        ok ==> final(emu).error_flag == old(emu).error_flag,
        !ok ==> final(emu).error_flag == Some(classify_access(kind)),
{
    let end = address + size as u64;
    let n = regions.len();
    let mut i: usize = 0;
    while i < n
        invariant
            0 <= i <= n,
            n == regions@.len(),
            regions_wf(regions@),
            end == address + size as u64,
            *emu == *old(emu),
            old(emu).wf(),
            forall|j: int|
                0 <= j < i ==> !(address >= (#[trigger] regions@[j]).begin && address + size
                    <= regions@[j].end + 1 && address + size <= regions@[j].begin + real_size),
        decreases n - i,
    {
        let begin = regions[i].begin;
        let rend = regions[i].end;
        if address >= begin && end <= rend + 1 && end - begin <= real_size {
            return true;
        }
        i = i + 1;
    }
    // No region admits this operation: record the classification and let
    // the caller stop the emulation.
    emu.error_flag = Some(match kind {
        AccessKind::Read => Fault::ReadUnmapped,
        AccessKind::Write => Fault::WriteUnmapped,
        AccessKind::Fetch => Fault::FetchUnmapped,
        AccessKind::ReadUnmapped => Fault::ReadUnmapped,
        AccessKind::WriteUnmapped => Fault::WriteUnmapped,
        AccessKind::WriteProt => Fault::WriteProt,
        AccessKind::ReadProt => Fault::ReadProt,
        AccessKind::FetchProt => Fault::FetchProt,
        AccessKind::ReadAfter => Fault::ReadUnmapped,
    });
    proof {
        lemma_heap_wf_transfer(*old(emu), *emu);
        lemma_files_wf_transfer(*old(emu), *emu);
    }
    false
}

/// What the emulation capability's per-page dirty bit reported for a
/// write address.
#[derive(Debug, Copy, Clone, Eq, PartialEq, Structural)]
pub enum DirtyState {
    /// The page was already dirty.
    Dirty,
    /// The page was clean and has just been marked dirty.
    NotDirty,
    /// The address resolves to no mapping at all.  The bound check runs
    /// first, so this is an internal invariant violation, not a state
    /// this hook accepts.
    Invalid,
}

/// The page base containing an address.
pub open spec fn page_base(address: u64) -> usize {
    ((address as usize) & !0xfffusize)
}

/// The dirty-page-tracking hook: fires on every write that passed the
/// bound check.  On the first write to a page, its base address joins
/// the dirty-page set, in discovery order with duplicates suppressed by
/// the capability's dirty bit.
pub fn track_dirty(emu: &mut Emulator, address: u64, state: DirtyState)
    requires
        old(emu).wf(),
        state != DirtyState::Invalid,
        address <= usize::MAX,
        old(emu).dirty@.len() < usize::MAX,
    ensures
        final(emu).wf(),
        Emulator::heap_unchanged(*old(emu), *final(emu)),
        Emulator::config_unchanged(*old(emu), *final(emu)),
        final(emu).fd_list@ == old(emu).fd_list@,
        final(emu).error_flag == old(emu).error_flag,
        final(emu).cov_count == old(emu).cov_count,
        final(emu).prev_block == old(emu).prev_block,
        state == DirtyState::Dirty ==> final(emu).dirty@ == old(emu).dirty@,
        state == DirtyState::NotDirty ==> final(emu).dirty@ == old(emu).dirty@.push(
            page_base(address),
        ),
{
    match state {
        DirtyState::Dirty => {},
        DirtyState::NotDirty => {
            let base = (address as usize) & !0xfff;
            emu.dirty.push(base);
            proof {
                lemma_heap_wf_transfer(*old(emu), *emu);
                lemma_files_wf_transfer(*old(emu), *emu);
            }
        },
        DirtyState::Invalid => {},
    }
}

use crate::config::COVMAP_SIZE;
use crate::{page_round_up, MAX_ALLOCATION_ADDR};
use crate::emulator::Perm;

/// The shared coverage map: one byte per edge-hash slot, zero until the
/// edge is first observed, then nonzero for the life of the process.  It
/// is deliberately shared across workers without locks or atomics: a
/// lost update only makes a worker rediscover an edge another worker
/// already marked, an accepted loss of signal precision that keeps the
/// hottest instrumentation path free of synchronization.  Every slot is
/// written independently and only ever moves from zero to nonzero, so
/// the race never corrupts unrelated data.
pub struct CovMap {
    pub bytes: Vec<u8>,
}

impl CovMap {
    /// The map has exactly its configured number of slots.
    pub open spec fn wf(self) -> bool {
        self.bytes@.len() == COVMAP_SIZE
    }

    /// A fresh map with every edge unseen.
    pub fn new() -> (r: CovMap)
        ensures
            r.wf(),
            forall|i: int| 0 <= i < COVMAP_SIZE ==> r.bytes@[i] == 0,
    {
        let bytes = vec![0u8; COVMAP_SIZE];
        CovMap { bytes }
    }
}

/// A basic block's compressed id: its address mixed by shifting, as the
/// widely used branch-coverage scheme does.
pub open spec fn block_id(address: u64) -> u64 {
    (address >> 4) ^ ((address << 8) as u64)
}

/// The map slot a directed edge hashes to: the current block's id mixed
/// with the previous block's stored id, reduced to the map size.
pub open spec fn cov_index(prev: u64, address: u64) -> int {
    ((block_id(address) ^ prev) % (COVMAP_SIZE as u64)) as int
}

/// The previous-block id stored after entering a block: the block's own
/// id right-shifted by one, so that an edge and its reverse hash apart.
pub open spec fn next_prev_block(address: u64) -> u64 {
    block_id(address) >> 1
}

/// The coverage hook: fires on every basic-block entry.  The edge from
/// the previously executed block to this one is hashed to a map slot;
/// a zero slot means a new edge: it is marked and the case's new-edge
/// counter grows.  The previous-block id rolls forward either way.
pub fn coverage_hit(emu: &mut Emulator, cov: &mut CovMap, address: u64) -> (new_edge: bool)
    requires
        old(emu).wf(),
        old(cov).wf(),
        old(emu).cov_count < u64::MAX,
    ensures
        final(emu).wf(),
        final(cov).wf(),
        Emulator::heap_unchanged(*old(emu), *final(emu)),
        Emulator::config_unchanged(*old(emu), *final(emu)),
        final(emu).fd_list@ == old(emu).fd_list@,
        final(emu).error_flag == old(emu).error_flag,
        final(emu).dirty@ == old(emu).dirty@,
        new_edge == (old(cov).bytes@[cov_index(old(emu).prev_block, address)] == 0),
        final(cov).bytes@ == (if new_edge {
            old(cov).bytes@.update(cov_index(old(emu).prev_block, address), 1u8)
        } else {
            old(cov).bytes@
        }),
        final(emu).cov_count == old(emu).cov_count + (if new_edge {
            1int
        } else {
            0int
        }),
        final(emu).prev_block == next_prev_block(address),
{
    let cur_location = (address >> 4) ^ (address << 8);
    let hash = (cur_location ^ emu.prev_block) % (COVMAP_SIZE as u64);
    let idx = hash as usize;
    let new_edge = cov.bytes[idx] == 0;
    if new_edge {
        cov.bytes[idx] = 1;
        emu.cov_count = emu.cov_count + 1;
    }
    emu.prev_block = cur_location >> 1;
    proof {
        lemma_heap_wf_transfer(*old(emu), *emu);
        lemma_files_wf_transfer(*old(emu), *emu);
    }
    new_edge
}

/// The sequence of coverage-map slots one case's basic-block trace
/// visits, starting from a previous-block id.  It depends on nothing but
/// that id and the addresses - never on the map's contents.
pub open spec fn index_trace(prev: u64, addrs: Seq<u64>) -> Seq<int>
    decreases addrs.len(),
{
    if addrs.len() == 0 {
        Seq::<int>::empty()
    } else {
        seq![cov_index(prev, addrs[0])] + index_trace(
            next_prev_block(addrs[0]),
            addrs.subrange(1, addrs.len() as int),
        )
    }
}

/// The coverage map after one case's trace is replayed over it: each
/// visited slot is set, and no slot is ever cleared.
pub open spec fn run_map(map: Seq<u8>, prev: u64, addrs: Seq<u64>) -> Seq<u8>
    decreases addrs.len(),
{
    if addrs.len() == 0 {
        map
    } else {
        let idx = cov_index(prev, addrs[0]);
        let m1 = if map[idx] == 0 {
            map.update(idx, 1u8)
        } else {
            map
        };
        run_map(m1, next_prev_block(addrs[0]), addrs.subrange(1, addrs.len() as int))
    }
}

/// The number of new edges such a replay discovers.
pub open spec fn run_count(map: Seq<u8>, prev: u64, addrs: Seq<u64>) -> int
    decreases addrs.len(),
{
    if addrs.len() == 0 {
        0
    } else {
        let idx = cov_index(prev, addrs[0]);
        let m1 = if map[idx] == 0 {
            map.update(idx, 1u8)
        } else {
            map
        };
        (if map[idx] == 0 {
            1int
        } else {
            0int
        }) + run_count(m1, next_prev_block(addrs[0]), addrs.subrange(1, addrs.len() as int))
    }
}

/// The slot sequence a case visits is a pure function of the reset
/// previous-block id and the block addresses: two runs over the same
/// trace from the same id visit bit-for-bit the same slots, whatever
/// either run finds in the map.
pub proof fn lemma_trace_reproducible(prev1: u64, prev2: u64, addrs1: Seq<u64>, addrs2: Seq<u64>)
    requires
        prev1 == prev2,
        addrs1 == addrs2,
    ensures
        index_trace(prev1, addrs1) == index_trace(prev2, addrs2),
{
}

/// A trace visits exactly one slot per block address.
pub proof fn lemma_index_trace_len(prev: u64, addrs: Seq<u64>)
    ensures
        index_trace(prev, addrs).len() == addrs.len(),
    decreases addrs.len(),
{
    if addrs.len() > 0 {
        lemma_index_trace_len(next_prev_block(addrs[0]), addrs.subrange(1, addrs.len() as int));
    }
}

/// A marked slot stays marked through any replay.
pub proof fn lemma_run_map_monotone(map: Seq<u8>, prev: u64, addrs: Seq<u64>, j: int)
    requires
        map.len() == COVMAP_SIZE,
        0 <= j < map.len(),
        map[j] != 0,
    ensures
        run_map(map, prev, addrs).len() == map.len(),
        run_map(map, prev, addrs)[j] != 0,
    decreases addrs.len(),
{
    if addrs.len() > 0 {
        let idx = cov_index(prev, addrs[0]);
        let m1 = if map[idx] == 0 {
            map.update(idx, 1u8)
        } else {
            map
        };
        lemma_run_map_monotone(m1, next_prev_block(addrs[0]), addrs.subrange(1, addrs.len() as int), j);
    }
}

/// After a run, every slot its trace visited is marked.
pub proof fn lemma_run_map_marks(map: Seq<u8>, prev: u64, addrs: Seq<u64>)
    requires
        map.len() == COVMAP_SIZE,
    ensures
        run_map(map, prev, addrs).len() == map.len(),
        forall|t: int|
            0 <= t < addrs.len() ==> 0 <= #[trigger] index_trace(prev, addrs)[t] < COVMAP_SIZE,
        forall|t: int|
            0 <= t < addrs.len() ==> run_map(map, prev, addrs)[#[trigger] index_trace(
                prev,
                addrs,
            )[t]] != 0,
    decreases addrs.len(),
{
    if addrs.len() > 0 {
        let idx = cov_index(prev, addrs[0]);
        let next = next_prev_block(addrs[0]);
        let rest = addrs.subrange(1, addrs.len() as int);
        let m1 = if map[idx] == 0 {
            map.update(idx, 1u8)
        } else {
            map
        };
        lemma_run_map_marks(m1, next, rest);
        lemma_run_map_monotone(m1, next, rest, idx);
        lemma_index_trace_len(next, rest);
        assert forall|t: int|
            0 <= t < addrs.len() implies 0 <= #[trigger] index_trace(prev, addrs)[t] < COVMAP_SIZE
            && run_map(map, prev, addrs)[index_trace(prev, addrs)[t]] != 0 by {
            if t == 0 {
                assert(index_trace(prev, addrs)[0] == idx);
            } else {
                assert(index_trace(prev, addrs)[t] == index_trace(next, rest)[t - 1]);
            }
        }
    }
}

/// A replay whose trace only visits already-marked slots discovers
/// nothing and leaves the map untouched.
pub proof fn lemma_run_count_zero(map: Seq<u8>, prev: u64, addrs: Seq<u64>)
    requires
        map.len() == COVMAP_SIZE,
        forall|t: int|
            0 <= t < addrs.len() ==> map[#[trigger] index_trace(prev, addrs)[t]] != 0,
    ensures
        run_count(map, prev, addrs) == 0,
        run_map(map, prev, addrs) == map,
    decreases addrs.len(),
{
    if addrs.len() > 0 {
        let idx = cov_index(prev, addrs[0]);
        let next = next_prev_block(addrs[0]);
        let rest = addrs.subrange(1, addrs.len() as int);
        lemma_index_trace_len(next, rest);
        assert(index_trace(prev, addrs)[0] == idx);
        assert(map[idx] != 0);
        assert forall|t: int| 0 <= t < rest.len() implies map[#[trigger] index_trace(
            next,
            rest,
        )[t]] != 0 by {
            assert(index_trace(prev, addrs)[t + 1] == index_trace(next, rest)[t]);
        }
        lemma_run_count_zero(map, next, rest);
    }
}

/// Re-executing a case whose input and starting previous-block id are
/// identical never increases the new-edge counter once the first run's
/// edges are marked: the second run finds every visited slot nonzero and
/// leaves the map exactly as the first run left it.
pub proof fn lemma_rerun_finds_nothing(map: Seq<u8>, prev: u64, addrs: Seq<u64>)
    requires
        map.len() == COVMAP_SIZE,
    ensures
        run_count(run_map(map, prev, addrs), prev, addrs) == 0,
        run_map(run_map(map, prev, addrs), prev, addrs) == run_map(map, prev, addrs),
{
    lemma_run_map_marks(map, prev, addrs);
    lemma_run_count_zero(run_map(map, prev, addrs), prev, addrs);
}

/// The allocation size the malloc intercept passes on, after mimicking
/// the target libc's own size alignment: uclibc adds an 8-byte header
/// field and rounds to 8-byte alignment.
pub open spec fn libc_adjusted(size: usize, libc: LibcOpt) -> usize {
    match libc {
        LibcOpt::LibUc => (((size + 0xf) as usize) & !0x7usize),
        LibcOpt::Standard => size,
    }
}

/// Apply the configured libc's size alignment.
pub fn adjust_alloc_size(size: usize, libc: LibcOpt) -> (r: usize)
    requires
        size + 0xf <= usize::MAX,
    ensures
        r == libc_adjusted(size, libc),
        size <= r,
    {
    match libc {
        LibcOpt::LibUc => {
            let s: usize = size + 0xf;
            let r = s & !0x7;
            proof {
                assert(size <= r && r <= s) by (bit_vector)
                    requires
                        r == s & !0x7,
                        s == size + 0xf,
                ;
            }
            r
        },
        LibcOpt::Standard => size,
    }
}

/// Whether a guarded allocation of `size` bytes (after libc adjustment)
/// fits the remaining budget: one guard page, then the rounded region.
pub open spec fn heap_grab_fits(pre: Emulator, size: usize, libc: LibcOpt) -> bool {
    &&& pre.bump() + 0x1000 < MAX_ALLOCATION_ADDR
    &&& libc_adjusted(size, libc) + 0xfff <= usize::MAX
    &&& pre.bump() + 0x1000 + page_round_up(libc_adjusted(size, libc)) < MAX_ALLOCATION_ADDR
}

/// The exact state change of a successful guarded allocation: a guard
/// page at the old bump pointer, the real region right after it, and the
/// region alone recorded in the ledger.
pub open spec fn heap_grab(
    pre: Emulator,
    post: Emulator,
    size: usize,
    libc: LibcOpt,
    guard_base: usize,
    addr: usize,
    len: usize,
) -> bool {
    &&& guard_base == pre.bump()
    &&& addr == pre.bump() + 0x1000
    &&& len == page_round_up(libc_adjusted(size, libc))
    &&& post.bump() == addr + len
    &&& post.ledger() == pre.ledger().insert(addr, len)
}

/// What the caller must apply after a successful malloc intercept: make
/// the guard region inaccessible, map the allocation read-write, place
/// `addr` in the return register, and simulate the target's return.
#[derive(Debug, Copy, Clone, Eq, PartialEq, Structural)]
pub struct MallocOutcome {
    /// Base of the no-access guard region.
    pub guard_base: usize,
    /// Length of the guard region.
    pub guard_len: usize,
    /// The allocation handed to the target.
    pub addr: usize,
    /// The allocation's rounded, recorded length.
    pub len: usize,
}

/// The malloc intercept: adjusts the requested size the way the target's
/// libc would, inserts a guard page before a fresh allocation, and
/// delegates to the allocator - the target's own allocator never runs.
/// Exhaustion of the address budget is recorded as a case fault in the
/// error flag, and the caller stops the case.
pub fn malloc_hook(emu: &mut Emulator, size: usize, libc: LibcOpt) -> (r: Result<
    MallocOutcome,
    Fault,
>)
    requires
        old(emu).wf(),
        size + 0xf <= usize::MAX,
    ensures
        final(emu).wf(),
        Emulator::config_unchanged(*old(emu), *final(emu)),
        final(emu).fd_list@ == old(emu).fd_list@,
        final(emu).dirty@ == old(emu).dirty@,
        final(emu).cov_count == old(emu).cov_count,
        final(emu).prev_block == old(emu).prev_block,
        r is Ok <==> heap_grab_fits(*old(emu), size, libc),
        r matches Ok(o) ==> heap_grab(*old(emu), *final(emu), size, libc, o.guard_base, o.addr, o.len)
            && o.guard_len == 0x1000 && final(emu).error_flag == old(emu).error_flag,
        r matches Err(f) ==> f == Fault::AllocationExhausted && final(emu).error_flag == Some(
            Fault::AllocationExhausted,
        ) && final(emu).ledger() == old(emu).ledger(),
{
    let adjusted = adjust_alloc_size(size, libc);
    proof {
        crate::lemma_page_round_up(0x1000);
    }
    // Insert a guard region prior to the allocation, so a small overrun
    // of the preceding allocation traps instead of corrupting this one.
    let guard_base = match emu.allocate(0x1000, Perm::none()) {
        Ok(base) => base,
        Err(_) => {
            emu.error_flag = Some(Fault::AllocationExhausted);
            proof {
                lemma_heap_wf_transfer(*old(emu), *emu);
                lemma_files_wf_transfer(*old(emu), *emu);
            }
            return Err(Fault::AllocationExhausted);
        },
    };
    match emu.allocate(adjusted, Perm::rw()) {
        Ok(addr) => {
            let len = crate::align_to_page(adjusted);
            Ok(MallocOutcome { guard_base, guard_len: 0x1000, addr, len })
        },
        Err(_) => {
            let ghost mid = *emu;
            emu.error_flag = Some(Fault::AllocationExhausted);
            proof {
                lemma_heap_wf_transfer(mid, *emu);
                lemma_files_wf_transfer(mid, *emu);
            }
            Err(Fault::AllocationExhausted)
        },
    }
}

/// What the caller must apply after a successful free intercept: revoke
/// all access to the region and simulate the target's return.
#[derive(Debug, Copy, Clone, Eq, PartialEq, Structural)]
pub struct FreeOutcome {
    /// The freed allocation's base.
    pub base: usize,
    /// The freed allocation's recorded length.
    pub len: usize,
}

/// The free intercept: delegates to the allocator's guarded free.  An
/// address that is not a live allocation base is an invalid free by the
/// target: the fault is recorded and the caller stops the case.
pub fn free_hook(emu: &mut Emulator, ptr: usize) -> (r: Result<FreeOutcome, Fault>)
    requires
        old(emu).wf(),
    ensures
        final(emu).wf(),
        Emulator::config_unchanged(*old(emu), *final(emu)),
        final(emu).fd_list@ == old(emu).fd_list@,
        final(emu).dirty@ == old(emu).dirty@,
        final(emu).cov_count == old(emu).cov_count,
        final(emu).prev_block == old(emu).prev_block,
        final(emu).bump() == old(emu).bump(),
        r is Ok <==> old(emu).ledger().dom().contains(ptr),
        r matches Ok(o) ==> o.base == ptr && o.len == old(emu).ledger()[ptr] && final(emu).ledger() == old(emu).ledger().remove(ptr) && final(emu).error_flag == old(emu).error_flag,
        r matches Err(f) ==> f == Fault::InvalidFree(ptr) && final(emu).ledger() == old(emu).ledger() && final(emu).error_flag == Some(Fault::InvalidFree(ptr)),
{
    match emu.free(ptr) {
        Ok(len) => Ok(FreeOutcome { base: ptr, len }),
        Err(f) => {
            emu.error_flag = Some(Fault::InvalidFree(ptr));
            proof {
                lemma_heap_wf_transfer(*old(emu), *emu);
                lemma_files_wf_transfer(*old(emu), *emu);
            }
            Err(Fault::InvalidFree(ptr))
        },
    }
}

/// What the caller must apply after a successful realloc intercept: the
/// old region loses all access, a guard and a fresh region are mapped,
/// and `addr` goes to the return register.
#[derive(Debug, Copy, Clone, Eq, PartialEq, Structural)]
pub struct ReallocOutcome {
    /// The old allocation's base, now to be revoked.
    pub freed_base: usize,
    /// The old allocation's recorded length.
    pub freed_len: usize,
    /// Base of the new no-access guard region.
    pub guard_base: usize,
    /// Length of the guard region.
    pub guard_len: usize,
    /// The fresh allocation handed back to the target.
    pub addr: usize,
    /// The fresh allocation's rounded, recorded length.
    pub len: usize,
}

/// The realloc intercept, modelled as an unconditional free of the old
/// pointer followed by a fresh guarded allocation of the new size.  The
/// original region's address and contents are deliberately never
/// preserved: a stale pointer into it becomes a detectable fault, which
/// is the point of the guard.  An invalid old pointer or an exhausted
/// budget is recorded as a case fault.
pub fn realloc_hook(emu: &mut Emulator, ptr: usize, size: usize, libc: LibcOpt) -> (r: Result<
    ReallocOutcome,
    Fault,
>)
    requires
        old(emu).wf(),
        size + 0xf <= usize::MAX,
    ensures
        final(emu).wf(),
        Emulator::config_unchanged(*old(emu), *final(emu)),
        final(emu).fd_list@ == old(emu).fd_list@,
        final(emu).dirty@ == old(emu).dirty@,
        final(emu).cov_count == old(emu).cov_count,
        final(emu).prev_block == old(emu).prev_block,
        r is Ok <==> old(emu).ledger().dom().contains(ptr) && heap_grab_fits(
            *old(emu),
            size,
            libc,
        ),
        r matches Ok(o) ==> {
            &&& o.freed_base == ptr
            &&& o.freed_len == old(emu).ledger()[ptr]
            &&& o.guard_base == old(emu).bump()
            &&& o.guard_len == 0x1000
            &&& o.addr == old(emu).bump() + 0x1000
            &&& o.len == page_round_up(libc_adjusted(size, libc))
            &&& final(emu).bump() == o.addr + o.len
            &&& final(emu).ledger() == old(emu).ledger().remove(ptr).insert(o.addr, o.len)
            &&& final(emu).error_flag == old(emu).error_flag
        },
        r matches Err(f) ==> final(emu).error_flag == Some(f) && (f == Fault::InvalidFree(ptr)
            || f == Fault::AllocationExhausted),
        !old(emu).ledger().dom().contains(ptr) ==> r == Err::<ReallocOutcome, Fault>(
            Fault::InvalidFree(ptr),
        ) && final(emu).ledger() == old(emu).ledger() && final(emu).bump() == old(emu).bump(),
{
    let freed = match free_hook(emu, ptr) {
        Ok(f) => f,
        Err(f) => {
            return Err(f);
        },
    };
    match malloc_hook(emu, size, libc) {
        Ok(o) => Ok(
            ReallocOutcome {
                freed_base: freed.base,
                freed_len: freed.len,
                guard_base: o.guard_base,
                guard_len: o.guard_len,
                addr: o.addr,
                len: o.len,
            },
        ),
        Err(f) => Err(f),
    }
}

} // verus!
