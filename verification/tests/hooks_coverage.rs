//! Hook decisions: syscall dispatch tables, the memory bound check, the
//! dirty-page tracker, edge coverage, and the allocator intercepts.

use zfuzz::config::LibcOpt;
use zfuzz::emulator::{Emulator, Fault, HarnessError, Perm};
use zfuzz::hooks::{
    bound_check, check_interrupt, classify_syscall, coverage_hit, free_hook, malloc_hook,
    realloc_hook, track_dirty, AccessKind, Arch, CovMap, DirtyState, MemRegion, SyscallKind,
};
use zfuzz::FIRSTALLOCATION;

#[test]
fn syscall_tables_map_the_documented_numbers() {
    let riscv64 = [
        (50, SyscallKind::Openat), (57, SyscallKind::Close), (63, SyscallKind::Read), (64, SyscallKind::Write), (79, SyscallKind::Fstatat), (80, SyscallKind::Fstat),
        (93, SyscallKind::Exit), (94, SyscallKind::ExitGroup), (174, SyscallKind::Getuid), (175, SyscallKind::Geteuid), (214, SyscallKind::Brk), (222, SyscallKind::Mmap),
        (1024, SyscallKind::Open), (1033, SyscallKind::Access),
    ];
    for (num, kind) in riscv64 {
        assert_eq!(classify_syscall(Arch::Riscv64, num), Ok(kind));
    }
    let x86_64 = [
        (0, SyscallKind::Read), (1, SyscallKind::Write), (2, SyscallKind::Open), (3, SyscallKind::Close), (5, SyscallKind::Fstat), (9, SyscallKind::Mmap), (12, SyscallKind::Brk),
        (21, SyscallKind::Access), (60, SyscallKind::Exit), (102, SyscallKind::Getuid), (107, SyscallKind::Geteuid), (158, SyscallKind::ArchPrctl),
        (231, SyscallKind::ExitGroup), (257, SyscallKind::Openat), (262, SyscallKind::Fstatat), (318, SyscallKind::Getrandom),
    ];
    for (num, kind) in x86_64 {
        assert_eq!(classify_syscall(Arch::X86_64, num), Ok(kind));
    }
    let x86_32 = [
        (1, SyscallKind::Exit), (3, SyscallKind::Read), (4, SyscallKind::Write), (5, SyscallKind::Open), (6, SyscallKind::Close), (24, SyscallKind::Getuid), (43, SyscallKind::Times),
        (45, SyscallKind::Brk), (49, SyscallKind::Geteuid), (90, SyscallKind::Mmap), (108, SyscallKind::Fstat), (252, SyscallKind::ExitGroup), (295, SyscallKind::Openat),
        (355, SyscallKind::Getrandom),
    ];
    for (num, kind) in x86_32 {
        assert_eq!(classify_syscall(Arch::X86_32, num), Ok(kind));
    }
}

#[test]
fn unmapped_syscall_numbers_are_fatal_not_answered() {
    // An unmapped number must terminate the harness with a descriptive
    // classification, never return a value to the target.
    assert_eq!(
        classify_syscall(Arch::Riscv64, 9999),
        Err(HarnessError::UnimplementedSyscall(9999))
    );
    assert_eq!(
        classify_syscall(Arch::X86_64, 7),
        Err(HarnessError::UnimplementedSyscall(7))
    );
    assert_eq!(
        classify_syscall(Arch::X86_32, 2),
        Err(HarnessError::UnimplementedSyscall(2))
    );
}

#[test]
fn only_the_syscall_interrupt_is_understood() {
    assert!(check_interrupt(Arch::Riscv64, 8).is_ok());
    assert_eq!(
        check_interrupt(Arch::Riscv64, 9),
        Err(HarnessError::UnsupportedInterrupt(9))
    );
    assert!(check_interrupt(Arch::X86_32, 0x80).is_ok());
    assert_eq!(
        check_interrupt(Arch::X86_32, 0x21),
        Err(HarnessError::UnsupportedInterrupt(0x21))
    );
}

#[test]
fn bound_check_accepts_accesses_inside_the_real_extent() {
    let mut emu = Emulator::new();
    let regions = vec![MemRegion { begin: 0x1000, end: 0x1fff }];
    assert!(bound_check(&mut emu, &regions, 0x20, AccessKind::Read, 0x1000, 0x20));
    assert!(bound_check(&mut emu, &regions, 0x20, AccessKind::Write, 0x101f, 1));
    assert_eq!(emu.error_flag, None);
}

#[test]
fn out_of_bounds_write_one_past_the_end_is_a_write_fault() {
    // An out-of-bounds write one byte past the end of the most recent
    // allocation is caught by the bound check and classified as a write
    // fault before dirty tracking ever observes the address.
    let mut emu = Emulator::new();
    let base = emu.allocate(5, Perm::rw()).unwrap() as u64;
    let regions = vec![MemRegion { begin: base, end: base + 0xfff }];
    let ok = bound_check(&mut emu, &regions, 5, AccessKind::Write, base + 5, 1);
    assert!(!ok);
    assert_eq!(emu.error_flag, Some(Fault::WriteUnmapped));
    assert!(emu.dirty.is_empty());
}

#[test]
fn access_outside_every_region_is_classified_by_kind() {
    let mut emu = Emulator::new();
    let regions = vec![MemRegion { begin: 0x1000, end: 0x1fff }];
    assert!(!bound_check(&mut emu, &regions, 0x1000, AccessKind::ReadProt, 0x5000, 4));
    assert_eq!(emu.error_flag, Some(Fault::ReadProt));
    let mut emu = Emulator::new();
    assert!(!bound_check(&mut emu, &regions, 0x1000, AccessKind::Fetch, 0x5000, 4));
    assert_eq!(emu.error_flag, Some(Fault::FetchUnmapped));
}

#[test]
fn dirty_tracking_records_each_page_once() {
    let mut emu = Emulator::new();
    track_dirty(&mut emu, 0x90_1234, DirtyState::NotDirty);
    track_dirty(&mut emu, 0x90_1567, DirtyState::Dirty);
    track_dirty(&mut emu, 0x90_3000, DirtyState::NotDirty);
    assert_eq!(emu.dirty, vec![0x90_1000, 0x90_3000]);
}

#[test]
fn coverage_trace_is_reproducible() {
    // The same block addresses from a freshly reset previous-block id
    // touch bit-for-bit the same map slots.
    let addrs = [0x1000u64, 0x1040, 0x1080, 0x1040, 0x2000];
    let mut emu1 = Emulator::new();
    let mut cov1 = CovMap::new();
    let mut seen1 = Vec::new();
    for a in addrs {
        seen1.push(coverage_hit(&mut emu1, &mut cov1, a));
    }
    let mut emu2 = Emulator::new();
    let mut cov2 = CovMap::new();
    let mut seen2 = Vec::new();
    for a in addrs {
        seen2.push(coverage_hit(&mut emu2, &mut cov2, a));
    }
    assert_eq!(seen1, seen2);
    assert_eq!(cov1.bytes, cov2.bytes);
    assert_eq!(emu1.prev_block, emu2.prev_block);
    assert_eq!(emu1.cov_count, emu2.cov_count);
}

#[test]
fn rerunning_a_case_finds_no_new_edges() {
    // Re-executing a case whose input and starting previous-block id
    // are identical never increases the new-edge counter once the first
    // run's edges are marked.
    let addrs = [0x1000u64, 0x1040, 0x1080, 0x1040, 0x2000, 0x1000];
    let mut emu = Emulator::new();
    let mut cov = CovMap::new();
    for a in addrs {
        coverage_hit(&mut emu, &mut cov, a);
    }
    let first_run = emu.cov_count;
    assert!(first_run > 0);
    emu.reset_case(Vec::new());
    assert_eq!(emu.prev_block, 0);
    for a in addrs {
        coverage_hit(&mut emu, &mut cov, a);
    }
    assert_eq!(emu.cov_count, 0);
}

#[test]
fn coverage_hash_matches_the_mixing_formula() {
    // For a block at 0x1000 with a reset previous id: the block id is
    // (0x1000 >> 4) ^ (0x1000 << 8) = 0x100100, the map slot is that
    // value modulo the map size, and the stored previous id is the
    // block id shifted right once.
    let mut emu = Emulator::new();
    let mut cov = CovMap::new();
    assert!(coverage_hit(&mut emu, &mut cov, 0x1000));
    assert_ne!(cov.bytes[0x0100], 0);
    assert_eq!(emu.prev_block, 0x100100 >> 1);
    assert_eq!(emu.cov_count, 1);
}

#[test]
fn protection_violations_keep_their_classification() {
    let regions = vec![MemRegion { begin: 0x1000, end: 0x1fff }];
    let mut emu = Emulator::new();
    assert!(!bound_check(&mut emu, &regions, 0, AccessKind::WriteProt, 0x9000, 1));
    assert_eq!(emu.error_flag, Some(Fault::WriteProt));
    let mut emu = Emulator::new();
    assert!(!bound_check(&mut emu, &regions, 0, AccessKind::FetchProt, 0x9000, 1));
    assert_eq!(emu.error_flag, Some(Fault::FetchProt));
}

#[test]
fn coverage_marks_a_slot_and_counts_it_once() {
    let mut emu = Emulator::new();
    let mut cov = CovMap::new();
    assert!(coverage_hit(&mut emu, &mut cov, 0x4000));
    assert_eq!(emu.cov_count, 1);
    let marked = cov.bytes.iter().filter(|&&b| b != 0).count();
    assert_eq!(marked, 1);
}

#[test]
fn malloc_hook_places_a_guard_before_the_allocation() {
    let mut emu = Emulator::new();
    let o = malloc_hook(&mut emu, 24, LibcOpt::Standard).unwrap();
    assert_eq!(o.guard_base, FIRSTALLOCATION);
    assert_eq!(o.guard_len, 0x1000);
    assert_eq!(o.addr, FIRSTALLOCATION + 0x1000);
    assert_eq!(o.len, 0x1000);
    // The guard is never freeable; the allocation is.
    assert_eq!(emu.free(o.guard_base), Err(Fault::InvalidFree(o.guard_base)));
    assert_eq!(emu.free(o.addr), Ok(0x1000));
}

#[test]
fn malloc_hook_mimics_uclibc_size_alignment() {
    let mut emu = Emulator::new();
    // 0x1000 requested bytes gain an 8-byte header under uclibc, so the
    // rounded allocation spills into a second page.
    let o = malloc_hook(&mut emu, 0x1000, LibcOpt::LibUc).unwrap();
    assert_eq!(o.len, 0x2000);
    let mut emu = Emulator::new();
    let o = malloc_hook(&mut emu, 0x1000, LibcOpt::Standard).unwrap();
    assert_eq!(o.len, 0x1000);
}

#[test]
fn free_hook_reports_invalid_frees_as_case_faults() {
    let mut emu = Emulator::new();
    let o = malloc_hook(&mut emu, 8, LibcOpt::Standard).unwrap();
    let f = free_hook(&mut emu, o.addr).unwrap();
    assert_eq!(f.base, o.addr);
    assert_eq!(f.len, 0x1000);
    assert_eq!(emu.error_flag, None);
    // The second free of the same address is the target's bug.
    assert_eq!(free_hook(&mut emu, o.addr), Err(Fault::InvalidFree(o.addr)));
    assert_eq!(emu.error_flag, Some(Fault::InvalidFree(o.addr)));
}

#[test]
fn realloc_hook_frees_then_reallocates_fresh_memory() {
    let mut emu = Emulator::new();
    let first = malloc_hook(&mut emu, 16, LibcOpt::Standard).unwrap();
    let r = realloc_hook(&mut emu, first.addr, 64, LibcOpt::Standard).unwrap();
    assert_eq!(r.freed_base, first.addr);
    assert_eq!(r.freed_len, first.len);
    assert!(r.addr > first.addr, "realloc never preserves the original address");
    assert_eq!(r.guard_base, first.addr + first.len);
    // The old pointer is dead: freeing it again faults.
    assert_eq!(free_hook(&mut emu, first.addr), Err(Fault::InvalidFree(first.addr)));
}

#[test]
fn realloc_hook_of_a_bad_pointer_is_an_invalid_free() {
    let mut emu = Emulator::new();
    assert_eq!(
        realloc_hook(&mut emu, 0xdead000, 8, LibcOpt::Standard),
        Err(Fault::InvalidFree(0xdead000))
    );
    assert_eq!(emu.error_flag, Some(Fault::InvalidFree(0xdead000)));
}

#[test]
fn allocation_exhaustion_in_the_hook_flags_the_case() {
    let mut emu = Emulator::new();
    // Spend nearly the whole budget, then ask for more than remains.
    emu.allocate(15 * 1024 * 1024, Perm::rw()).unwrap();
    let r = malloc_hook(&mut emu, 2 * 1024 * 1024, LibcOpt::Standard);
    assert_eq!(r, Err(Fault::AllocationExhausted));
    assert_eq!(emu.error_flag, Some(Fault::AllocationExhausted));
}
