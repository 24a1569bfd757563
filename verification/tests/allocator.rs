//! Allocator behaviour: bump addresses, page rounding, exhaustion, and
//! the guarded free.

use zfuzz::emulator::{Emulator, Fault, Perm};
use zfuzz::{align_to_page, FIRSTALLOCATION, MAX_ALLOCATION_ADDR, VMMAP_ALLOCATION_SIZE};

#[test]
fn align_to_page_exact_values() {
    assert_eq!(align_to_page(0), 0);
    assert_eq!(align_to_page(1), 0x1000);
    assert_eq!(align_to_page(0xfff), 0x1000);
    assert_eq!(align_to_page(0x1000), 0x1000);
    assert_eq!(align_to_page(0x1001), 0x2000);
}

#[test]
fn allocate_returns_increasing_page_aligned_addresses() {
    let mut emu = Emulator::new();
    let a = emu.allocate(5, Perm::rw()).unwrap();
    let b = emu.allocate(0x1000, Perm::rw()).unwrap();
    let c = emu.allocate(0x1001, Perm::rw()).unwrap();
    let d = emu.allocate(1, Perm::rw()).unwrap();
    assert_eq!(a, FIRSTALLOCATION);
    assert_eq!(b, FIRSTALLOCATION + 0x1000);
    assert_eq!(c, FIRSTALLOCATION + 0x2000);
    assert_eq!(d, FIRSTALLOCATION + 0x4000);
    for addr in [a, b, c, d] {
        assert_eq!(addr % 0x1000, 0);
    }
    assert!(a < b && b < c && c < d);
}

#[test]
fn allocate_never_reuses_a_freed_address() {
    let mut emu = Emulator::new();
    let a = emu.allocate(16, Perm::rw()).unwrap();
    emu.free(a).unwrap();
    let b = emu.allocate(16, Perm::rw()).unwrap();
    assert!(b > a, "freed address must never be handed out again");
}

#[test]
fn allocate_exhaustion_is_an_error_not_a_fault() {
    let mut emu = Emulator::new();
    // The whole budget at once never fits (the bump pointer may not
    // reach the upper bound).
    assert_eq!(
        emu.allocate(VMMAP_ALLOCATION_SIZE, Perm::rw()),
        Err(Fault::AllocationExhausted)
    );
    // A failed allocation leaves the allocator usable.
    let a = emu.allocate(1, Perm::rw()).unwrap();
    assert_eq!(a, FIRSTALLOCATION);
}

#[test]
fn allocate_fails_forever_once_budget_is_spent() {
    let mut emu = Emulator::new();
    let chunk = 1024 * 1024;
    let mut last = 0;
    let mut count = 0;
    loop {
        match emu.allocate(chunk, Perm::rw()) {
            Ok(addr) => {
                assert!(count == 0 || addr > last);
                last = addr;
                count += 1;
            }
            Err(f) => {
                assert_eq!(f, Fault::AllocationExhausted);
                break;
            }
        }
        assert!(count <= 16, "allocator ran past its configured budget");
    }
    // 16 MiB budget, 1 MiB chunks, and the bump pointer must stay
    // strictly below the bound: 15 chunks fit.
    assert_eq!(count, 15);
    assert!(last + chunk < MAX_ALLOCATION_ADDR);
    // Once exhausted, every subsequent request of that size fails too.
    for _ in 0..4 {
        assert_eq!(emu.allocate(chunk, Perm::rw()), Err(Fault::AllocationExhausted));
    }
}

#[test]
fn allocate_overflowing_size_is_exhaustion() {
    let mut emu = Emulator::new();
    assert_eq!(emu.allocate(usize::MAX, Perm::rw()), Err(Fault::AllocationExhausted));
    assert_eq!(emu.allocate(usize::MAX - 0xffe, Perm::rw()), Err(Fault::AllocationExhausted));
}

#[test]
fn free_succeeds_only_on_exact_live_bases() {
    let mut emu = Emulator::new();
    let a = emu.allocate(5, Perm::rw()).unwrap();
    // An interior pointer is a fatal invalid free.
    assert_eq!(emu.free(a + 1), Err(Fault::InvalidFree(a + 1)));
    // An address that was never allocated is too.
    assert_eq!(emu.free(0x12345000), Err(Fault::InvalidFree(0x12345000)));
    // The exact base succeeds and reports the rounded size.
    assert_eq!(emu.free(a), Ok(0x1000));
}

#[test]
fn free_twice_faults_on_the_second_call() {
    let mut emu = Emulator::new();
    let a = emu.allocate(64, Perm::rw()).unwrap();
    assert!(emu.free(a).is_ok());
    assert_eq!(emu.free(a), Err(Fault::InvalidFree(a)));
}

#[test]
fn guard_regions_are_not_freeable_allocations() {
    let mut emu = Emulator::new();
    let guard = emu.allocate(0x1000, Perm::none()).unwrap();
    let real = emu.allocate(8, Perm::rw()).unwrap();
    assert_eq!(real, guard + 0x1000);
    // The guard was never recorded as a user-visible allocation.
    assert_eq!(emu.free(guard), Err(Fault::InvalidFree(guard)));
    assert!(emu.free(real).is_ok());
}
