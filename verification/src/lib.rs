//! Emulation-based fuzzing execution environment: a guarded bump allocator,
//! a file-descriptor table serving a fuzz-input pseudo-file, syscall ABI
//! dispatch for three Linux calling conventions, dirty-page tracking, and
//! edge-coverage instrumentation, all modelled as verified state transitions
//! over plain values.  The raw CPU emulator is an external capability: the
//! functions here take the values it produces (registers, memory bytes,
//! region lists) and return the state changes and effects to apply to it.

use vstd::prelude::*;

pub mod config;
pub mod elf;
pub mod emulator;
pub mod hooks;
pub mod mutator;
pub mod stack;
pub mod syscalls;

verus! {

/// The starting address for the memory allocator.
pub const FIRSTALLOCATION: usize = 0x900000;

/// Amount of memory reserved for each emulator to handle stack and heap
/// allocations.
pub const VMMAP_ALLOCATION_SIZE: usize = 16 * 1024 * 1024;

/// Maximum allocation address: the bump pointer never passes this bound.
pub const MAX_ALLOCATION_ADDR: usize = 0x900000 + 16 * 1024 * 1024;

/// Page granularity required by the emulation capability: every allocation
/// is rounded up to a multiple of this.
pub const PAGE_SIZE: usize = 0x1000;

/// True when `a` sits on a page boundary.
pub open spec fn page_aligned(a: int) -> bool {
    a % 0x1000 == 0
}

/// A requested allocation size rounded up to the page granularity: the
/// one page-aligned value in `[size, size + 0xfff]`.
pub open spec fn page_round_up(size: usize) -> usize {
    ((size + 0xfff) as usize) & !0xfff
}

/// Page rounding holds its characterization whenever the rounding cannot
/// overflow.
pub proof fn lemma_page_round_up(size: usize)
    requires
        size + 0xfff <= usize::MAX,
    ensures
        page_aligned(page_round_up(size) as int),
        size <= page_round_up(size) < size + 0x1000,
{
    let s: usize = (size + 0xfff) as usize;
    assert(s == size + 0xfff);
    let r = page_round_up(size);
    assert(r % 0x1000 == 0 && size <= r && r <= s) by (bit_vector)
        requires
            r == s & !0xfff,
            s == size + 0xfff,
    ;
}

/// Rounds a requested allocation size up to the page granularity.
pub fn align_to_page(size: usize) -> (r: usize)
    requires
        size + 0xfff <= usize::MAX,
    ensures
        r == page_round_up(size),
        page_aligned(r as int),
        size <= r < size + 0x1000,
{
    let s: usize = size + 0xfff;
    let r = s & !0xfff;
    proof {
        lemma_page_round_up(size);
    }
    r
}

/// Byte-wise equality of two byte vectors.
pub fn bytes_eq(a: &Vec<u8>, b: &Vec<u8>) -> (r: bool)
    ensures
        r <==> a@ == b@,
{
    if a.len() != b.len() {
        return false;
    }
    let mut i: usize = 0;
    while i < a.len()
        invariant
            0 <= i <= a@.len(),
            a@.len() == b@.len(),
            forall|j: int| 0 <= j < i ==> a@[j] == b@[j],
        decreases a@.len() - i,
    {
        if a[i] != b[i] {
            return false;
        }
        i = i + 1;
    }
    proof {
        assert(a@ =~= b@);
    }
    true
}

} // verus!
