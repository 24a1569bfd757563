//! Per-worker execution environment: the file-descriptor table, the
//! fuzz-input bytes, the guarded bump allocator with its allocation ledger,
//! the dirty-page set and the per-case error flag and coverage counters.
//!
//! The CPU emulator itself is an external capability; the methods here are
//! the state transitions behind its hooks, phrased over plain values.  The
//! caller applies the returned effects (memory protections, register
//! writes) to the emulator.

use vstd::prelude::*;

use crate::{page_aligned, page_round_up, align_to_page, FIRSTALLOCATION, MAX_ALLOCATION_ADDR};

verus! {

/// Different types of exit-conditions for the fuzzer.
#[derive(Debug, Copy, Clone, Eq, PartialEq, Structural)]
pub enum ExitType {
    /// Leave the emulation loop to create a snapshot at this address.
    Snapshot,
    /// Leave the emulation loop reporting a success-case.
    Success,
    /// Exit the emulation loop as if exit() was called.
    Exit,
}

/// Different types of files that the fuzzer supports.
#[derive(Copy, Debug, Clone, Eq, PartialEq, Structural)]
pub enum FileType {
    /// STDIN (0)
    STDIN,
    /// STDOUT (1), ignored apart from debug-prints to the console.
    STDOUT,
    /// STDERR (2), ignored apart from debug-prints to the console.
    STDERR,
    /// The input being fuzzed.  Its byte-backing is the environment's
    /// fuzz-input buffer.
    FUZZINPUT,
    /// A standard file that is not 0/1/2 and not the fuzz-input.
    OTHER,
    /// Invalid (closed) file.
    INVALID,
}

/// Fault classifications that end the current case: the error flag holds
/// one of these once a hook or syscall handler detects a memory-safety
/// violation or allocator exhaustion.
#[derive(Debug, Copy, Clone, Eq, PartialEq, Structural)]
pub enum Fault {
    /// A read touched unmapped memory.
    ReadUnmapped,
    /// A write touched unmapped memory.
    WriteUnmapped,
    /// An instruction fetch touched unmapped memory.
    FetchUnmapped,
    /// A read violated page protections.
    ReadProt,
    /// A write violated page protections.
    WriteProt,
    /// An instruction fetch violated page protections.
    FetchProt,
    /// The target freed an address that is not a live allocation base.
    InvalidFree(usize),
    /// The allocator ran out of its configured address range.
    AllocationExhausted,
}

/// Conditions the harness cannot emulate faithfully: the whole run must
/// stop with one of these classifications, never by an abrupt abort.
#[derive(Debug, Copy, Clone, Eq, PartialEq, Structural)]
pub enum HarnessError {
    /// A syscall number the architecture's table does not map.
    UnimplementedSyscall(u64),
    /// An interrupt number other than the one carrying syscalls.
    UnsupportedInterrupt(u32),
    /// A write syscall against a file the harness does not model.
    WriteUnsupportedFile(usize),
    /// An fstat syscall against a file the harness does not model.
    FstatUnsupported(usize),
    /// A non-query brk: heap growth goes through the allocator hooks.
    BrkUnsupported(u64),
}

/// Memory-access permissions for an allocated region, applied by the
/// caller through the emulation capability.
#[derive(Debug, Copy, Clone, Eq, PartialEq, Structural)]
pub struct Perm {
    pub read: bool,
    pub write: bool,
    pub execute: bool,
}

impl Perm {
    /// True when the permission grants no access at all: such a region is
    /// a guard, never a user-visible allocation.
    pub open spec fn is_none(self) -> bool {
        !self.read && !self.write && !self.execute
    }

    /// No access: used for guard regions and revoked (freed) regions.
    pub fn none() -> (r: Perm)
        ensures
            r.is_none(),
    {
        Perm { read: false, write: false, execute: false }
    }

    /// Read and write access: the permission of heap allocations.
    pub fn rw() -> (r: Perm)
        ensures
            r == (Perm { read: true, write: true, execute: false }),
    {
        Perm { read: true, write: true, execute: false }
    }
}

/// Memory mapped file implementation.
#[derive(Debug, Clone, Eq, PartialEq)]
pub struct File {
    /// Filetype of this file.
    pub ftype: FileType,
    /// The byte-backing used by this file.  Not required by 0/1/2 or the
    /// fuzz-input, whose backing is the environment's fuzz-input buffer.
    pub backing: Option<Vec<u8>>,
    /// Cursor used by the fuzz-input and by other files that are not 0/1/2.
    pub cursor: Option<usize>,
}

impl File {
    /// A fresh descriptor entry of the given type: `OTHER` files own an
    /// empty backing and a zero cursor, the fuzz-input starts with a zero
    /// cursor and no backing of its own, the standard streams have neither.
    pub fn new(ftype: FileType) -> (r: File)
        ensures
            r.ftype == ftype,
            ftype == FileType::OTHER ==> (r.backing matches Some(b) && b@ =~= Seq::<u8>::empty()),
            ftype == FileType::OTHER ==> r.cursor == Some(0usize),
            ftype == FileType::FUZZINPUT ==> r.backing is None && r.cursor == Some(0usize),
            ftype != FileType::OTHER && ftype != FileType::FUZZINPUT ==> r.backing is None
                && r.cursor is None,
    {
        let (backing, cursor) = match ftype {
            FileType::OTHER => (Some(Vec::new()), Some(0usize)),
            FileType::FUZZINPUT => (None, Some(0usize)),
            _ => (None, None),
        };
        File { ftype, backing, cursor }
    }
}

/// The allocation ledger: live heap allocations, keyed by base address,
/// valued by the page-rounded size that was recorded and protected.  It
/// wraps the hash map the environment uses at run time; contracts speak
/// of it through [`ledger_view`].
#[verifier::external_body]
pub struct AllocLedger {
    map: rustc_hash::FxHashMap<usize, usize>,
}

/// What the ledger holds: a mapping from live allocation bases to their
/// recorded sizes.
pub uninterp spec fn ledger_view(l: AllocLedger) -> Map<usize, usize>;

/// Relies on `FxHashMap::default` (`std::collections::HashMap`); nothing
/// is assumed of the result: [`ledger_clear`] establishes emptiness.
#[verifier::external_body]
fn ledger_new() -> (r: AllocLedger) {
    AllocLedger { map: rustc_hash::FxHashMap::default() }
}

/// Relies on `HashMap::clear`: removes all entries, leaving the map empty.
#[verifier::external_body]
fn ledger_clear(l: &mut AllocLedger)
    ensures
        ledger_view(*final(l)).dom() == Set::<usize>::empty(),
{
    l.map.clear();
}

/// Relies on `HashMap::insert`: maps the key to the value and keeps every
/// other entry.
#[verifier::external_body]
fn ledger_insert(l: &mut AllocLedger, k: usize, v: usize)
    ensures
        ledger_view(*final(l)) == ledger_view(*old(l)).insert(k, v),
{
    l.map.insert(k, v);
}

/// Relies on `HashMap::get`: returns the value the key maps to, if any.
#[verifier::external_body]
fn ledger_get(l: &AllocLedger, k: usize) -> (r: Option<usize>)
    ensures
        ledger_view(*l).dom().contains(k) ==> r == Some(ledger_view(*l)[k]),
        !ledger_view(*l).dom().contains(k) ==> r is None,
{
    l.map.get(&k).copied()
}

/// Relies on `HashMap::remove`: drops the key's entry and keeps every
/// other entry.
#[verifier::external_body]
fn ledger_remove(l: &mut AllocLedger, k: usize)
    ensures
        ledger_view(*final(l)) == ledger_view(*old(l)).remove(k),
{
    l.map.remove(&k);
}

/// Emulator execution environment.  Each worker owns exactly one; hooks
/// and syscall handlers borrow it only for the duration of one callback.
pub struct Emulator {
    /// List of file descriptors that the process can use for syscalls.
    /// Slots are only appended, never removed; closing marks the slot
    /// `INVALID`.
    pub fd_list: Vec<File>,
    /// The fuzz input in use by the current case.
    pub fuzz_input: Vec<u8>,
    /// The null-terminated path bytes that route an `open` to the
    /// fuzz-input pseudo-file; configured by the driver.
    pub fuzz_input_name: Vec<u8>,
    /// Map of exit conditions that would cause the fuzzer to exit early.
    pub _exit_conds: Vec<(usize, ExitType)>,
    /// Backing address at which injected snapshot code is located.
    pub _snapshot_addr: usize,
    /// Page base addresses written during the current case, in order of
    /// first dirtying.
    pub dirty: Vec<usize>,
    /// Fault recorded by a hook or syscall handler; once set, the case
    /// stops and is reported as crashing.
    pub error_flag: Option<Fault>,
    /// Number of new coverage-map edges this case discovered.
    pub cov_count: u64,
    /// Compressed id of the previous basic block, mixed into the next
    /// edge hash.
    pub prev_block: u64,
    /// The current program break at which new memory is allocated.
    pub alloc_addr: usize,
    /// Live allocations made during the run, used to find heap bugs.
    pub heap_allocations: AllocLedger,
}

impl Emulator {
    /// The allocation ledger as a mathematical map.
    pub open spec fn ledger(self) -> Map<usize, usize> {
        ledger_view(self.heap_allocations)
    }

    /// The bump pointer: the base the next allocation would get.
    pub open spec fn bump(self) -> usize {
        self.alloc_addr
    }

    /// Allocator well-formedness: the bump pointer stays page-aligned
    /// inside the configured range, every ledger entry is a page-aligned
    /// region ending at or below the bump pointer, and entries never
    /// overlap.
    pub open spec fn heap_wf(self) -> bool {
        &&& FIRSTALLOCATION <= self.bump() <= MAX_ALLOCATION_ADDR
        &&& page_aligned(self.bump() as int)
        &&& forall|b: usize| #[trigger] self.ledger().dom().contains(b) ==> {
            &&& FIRSTALLOCATION <= b
            &&& b + self.ledger()[b] <= self.bump()
            &&& page_aligned(b as int)
            &&& page_aligned(self.ledger()[b] as int)
        }
        &&& forall|b1: usize, b2: usize|
            #[trigger] self.ledger().dom().contains(b1) && #[trigger] self.ledger().dom().contains(
                b2,
            ) && b1 != b2 ==> b1 + self.ledger()[b1] <= b2 || b2 + self.ledger()[b2] <= b1
    }

    /// File-table well-formedness: a fuzz-input descriptor's cursor exists
    /// and never passes the end of the input buffer.
    pub open spec fn files_wf(self) -> bool {
        forall|i: int|
            0 <= i < self.fd_list@.len() && (#[trigger] self.fd_list@[i]).ftype
                == FileType::FUZZINPUT ==> (self.fd_list@[i].cursor matches Some(c) && c
                <= self.fuzz_input@.len())
    }

    /// The environment invariant, established by `new` and preserved by
    /// every method.
    pub open spec fn wf(self) -> bool {
        self.heap_wf() && self.files_wf()
    }

    /// The allocator state is the same in both environments.
    pub open spec fn heap_unchanged(pre: Emulator, post: Emulator) -> bool {
        post.bump() == pre.bump() && post.ledger() == pre.ledger()
    }

    /// The configured input, its path, and the exit conditions are the
    /// same in both environments.
    pub open spec fn config_unchanged(pre: Emulator, post: Emulator) -> bool {
        &&& post.fuzz_input@ == pre.fuzz_input@
        &&& post.fuzz_input_name@ == pre.fuzz_input_name@
        &&& post._exit_conds@ == pre._exit_conds@
        &&& post._snapshot_addr == pre._snapshot_addr
    }

    /// The per-case counters and flags are the same in both environments.
    pub open spec fn case_state_unchanged(pre: Emulator, post: Emulator) -> bool {
        &&& post.dirty@ == pre.dirty@
        &&& post.error_flag == pre.error_flag
        &&& post.cov_count == pre.cov_count
        &&& post.prev_block == pre.prev_block
    }

    /// Fields untouched by the allocator.
    pub open spec fn non_heap_unchanged(pre: Emulator, post: Emulator) -> bool {
        &&& post.fd_list@ == pre.fd_list@
        &&& Emulator::config_unchanged(pre, post)
        &&& Emulator::case_state_unchanged(pre, post)
    }

    /// The exact state change of a successful allocation: the returned
    /// base is the old bump pointer, the bump pointer advances by the
    /// rounded size, and the region is recorded unless it is a guard.
    pub open spec fn allocate_transition(
        pre: Emulator,
        post: Emulator,
        size: usize,
        base: usize,
        perms: Perm,
    ) -> bool {
        &&& pre.wf()
        &&& pre.can_allocate(size)
        &&& base == pre.bump()
        &&& post.bump() == base + page_round_up(size)
        &&& (if perms.is_none() {
            post.ledger() == pre.ledger()
        } else {
            post.ledger() == pre.ledger().insert(base, page_round_up(size) as usize)
        })
    }

    /// Whether an allocation of `size` bytes fits: the rounded size must
    /// exist and the advanced bump pointer must stay strictly below the
    /// upper bound of the range.
    pub open spec fn can_allocate(self, size: usize) -> bool {
        &&& size + 0xfff <= usize::MAX
        &&& self.bump() + page_round_up(size) < MAX_ALLOCATION_ADDR
    }

    /// Create a new execution environment: the three standard streams,
    /// empty per-case state, and an allocator at the start of its range.
    pub fn new() -> (r: Emulator)
        ensures
            r.wf(),
            r.fd_list@.len() == 3,
            r.fd_list@[0].ftype == FileType::STDIN,
            r.fd_list@[1].ftype == FileType::STDOUT,
            r.fd_list@[2].ftype == FileType::STDERR,
            r.fuzz_input@ =~= Seq::<u8>::empty(),
            r.fuzz_input_name@ =~= Seq::<u8>::empty(),
            r.dirty@ =~= Seq::<usize>::empty(),
            r.error_flag is None,
            r.cov_count == 0,
            r.prev_block == 0,
            r.bump() == FIRSTALLOCATION,
            r.ledger() == Map::<usize, usize>::empty(),
    {
        let mut fd_list: Vec<File> = Vec::new();
        fd_list.push(File::new(FileType::STDIN));
        fd_list.push(File::new(FileType::STDOUT));
        fd_list.push(File::new(FileType::STDERR));
        let mut heap_allocations = ledger_new();
        ledger_clear(&mut heap_allocations);
        let r = Emulator {
            fd_list,
            fuzz_input: Vec::new(),
            fuzz_input_name: Vec::new(),
            _exit_conds: Vec::new(),
            _snapshot_addr: 0,
            dirty: Vec::new(),
            error_flag: None,
            cov_count: 0,
            prev_block: 0,
            alloc_addr: FIRSTALLOCATION,
            heap_allocations,
        };
        proof {
            assert(0x900000int % 0x1000 == 0);
        }
        r
    }

    /// Allocate a new memory region.  Memory is never reused: each
    /// allocation advances a bump pointer, so a dangling pointer to freed
    /// memory can never alias a later allocation.  The rounded size, not
    /// the requested one, is recorded and must be protected by the caller
    /// with `perms`.  A no-access request is a guard region: it consumes
    /// address space but is never recorded as an allocation the target
    /// could free.  Fails with `AllocationExhausted` (never a fault) when
    /// the region would pass the end of the configured range, including on
    /// integer overflow of the running total.
    pub fn allocate(&mut self, size: usize, perms: Perm) -> (r: Result<usize, Fault>)
        requires
            old(self).wf(),
        ensures
            final(self).wf(),
            Emulator::non_heap_unchanged(*old(self), *final(self)),
            r is Ok <==> old(self).can_allocate(size),
            r matches Ok(base) ==> Emulator::allocate_transition(
                *old(self),
                *final(self),
                size,
                base,
                perms,
            ) && page_aligned(base as int),
            r matches Err(f) ==> f == Fault::AllocationExhausted && final(self).bump() == old(self).bump() && final(self).ledger() == old(self).ledger(),
    {
        // Rounding `size` itself must not overflow: treat that as running
        // out of memory, never as a fault.
        if size > usize::MAX - 0xfff {
            return Err(Fault::AllocationExhausted);
        }
        let aligned_size = align_to_page(size);
        let base = self.alloc_addr;

        // Cannot allocate without running out of memory.
        if base >= MAX_ALLOCATION_ADDR || aligned_size >= MAX_ALLOCATION_ADDR - base {
            return Err(Fault::AllocationExhausted);
        }
        // Guard regions are not user-visible allocations: the target can
        // never free them, so they stay out of the ledger.
        if !(perms.read == false && perms.write == false && perms.execute == false) {
            ledger_insert(&mut self.heap_allocations, base, aligned_size);
        }
        self.alloc_addr = base + aligned_size;

        proof {
            let pre = *old(self);
            assert(page_aligned(self.alloc_addr as int)) by (nonlinear_arith)
                requires
                    page_aligned(base as int),
                    page_aligned(aligned_size as int),
                    self.alloc_addr == base + aligned_size,
            ;
            assert forall|b: usize| #[trigger] self.ledger().dom().contains(b) implies {
                &&& FIRSTALLOCATION <= b
                &&& b + self.ledger()[b] <= self.bump()
                &&& page_aligned(b as int)
                &&& page_aligned(self.ledger()[b] as int)
            } by {
                if b != base {
                    assert(pre.ledger().dom().contains(b));
                }
            }
            assert forall|b1: usize, b2: usize|
                #[trigger] self.ledger().dom().contains(b1) && #[trigger] self.ledger().dom().contains(b2)
                    && b1 != b2 implies b1 + self.ledger()[b1] <= b2 || b2 + self.ledger()[b2]
                <= b1 by {
                if b1 != base && b2 != base {
                    assert(pre.ledger().dom().contains(b1) && pre.ledger().dom().contains(b2));
                } else if b1 == base {
                    assert(pre.ledger().dom().contains(b2));
                    assert(b2 + pre.ledger()[b2] <= base);
                } else {
                    assert(pre.ledger().dom().contains(b1));
                    assert(b1 + pre.ledger()[b1] <= base);
                }
            }
        }
        Ok(base)
    }

    /// Free a previously allocated region.  Succeeds exactly when `addr`
    /// is the base of a currently-live allocation, removing it from the
    /// ledger and returning the recorded size whose access permissions
    /// the caller must revoke (the region stays mapped so later touches
    /// trap as protection faults).  Any other address - never allocated,
    /// already freed, an interior pointer, or a guard region - is an
    /// invalid free: a bug in the target, reported as a fault.
    pub fn free(&mut self, addr: usize) -> (r: Result<usize, Fault>)
        requires
            old(self).wf(),
        ensures
            final(self).wf(),
            Emulator::non_heap_unchanged(*old(self), *final(self)),
            final(self).bump() == old(self).bump(),
            r is Ok <==> old(self).ledger().dom().contains(addr),
            r matches Ok(sz) ==> sz == old(self).ledger()[addr] && final(self).ledger() == old(self).ledger().remove(addr),
            r matches Err(f) ==> f == Fault::InvalidFree(addr) && final(self).ledger() == old(self).ledger(),
    {
        if addr > MAX_ALLOCATION_ADDR {
            proof {
                if self.ledger().dom().contains(addr) {
                    assert(addr + self.ledger()[addr] <= self.bump());
                }
            }
            return Err(Fault::InvalidFree(addr));
        }
        let allocation_size = ledger_get(&self.heap_allocations, addr);
        match allocation_size {
            None => Err(Fault::InvalidFree(addr)),
            Some(sz) => {
                ledger_remove(&mut self.heap_allocations, addr);
                proof {
                    let pre = *old(self);
                    assert(forall|b: usize| #[trigger] self.ledger().dom().contains(b)
                        ==> pre.ledger().dom().contains(b) && self.ledger()[b] == pre.ledger()[b]);
                }
                Ok(sz)
            },
        }
    }

    /// Allocate a new file descriptor slot in the emulator.  Slots are
    /// only appended: the returned index stays valid for the life of the
    /// environment.
    pub fn alloc_file(&mut self, ftype: FileType) -> (fd: usize)
        requires
            old(self).wf(),
            old(self).fd_list@.len() < usize::MAX,
        ensures
            final(self).wf(),
            Emulator::heap_unchanged(*old(self), *final(self)),
            Emulator::config_unchanged(*old(self), *final(self)),
            Emulator::case_state_unchanged(*old(self), *final(self)),
            fd == old(self).fd_list@.len(),
            final(self).fd_list@.len() == old(self).fd_list@.len() + 1,
            forall|i: int|
                0 <= i < old(self).fd_list@.len() ==> final(self).fd_list@[i] == old(self).fd_list@[i],
            final(self).fd_list@[fd as int].ftype == ftype,
            ftype == FileType::FUZZINPUT || ftype == FileType::OTHER ==> final(self).fd_list@[fd as int].cursor == Some(0usize),
    {
        let file = File::new(ftype);
        self.fd_list.push(file);
        proof {
            lemma_heap_wf_transfer(*old(self), *self);
            assert forall|i: int|
                0 <= i < self.fd_list@.len() && (#[trigger] self.fd_list@[i]).ftype
                    == FileType::FUZZINPUT implies (self.fd_list@[i].cursor matches Some(c) && c
                <= self.fuzz_input@.len()) by {
                if i < old(self).fd_list@.len() {
                    assert(self.fd_list@[i] == old(self).fd_list@[i]);
                }
            }
        }
        self.fd_list.len() - 1
    }

    /// Install the next case's input and clear the per-case state: the
    /// error flag, the dirty-page set, the coverage counters, and every
    /// fuzz-input cursor.  The allocator and the descriptor table
    /// themselves persist with the environment.
    pub fn reset_case(&mut self, input: Vec<u8>)
        requires
            old(self).wf(),
        ensures
            final(self).wf(),
            Emulator::heap_unchanged(*old(self), *final(self)),
            final(self).fuzz_input@ == input@,
            final(self).fuzz_input_name@ == old(self).fuzz_input_name@,
            final(self)._exit_conds@ == old(self)._exit_conds@,
            final(self)._snapshot_addr == old(self)._snapshot_addr,
            final(self).error_flag is None,
            final(self).dirty@ =~= Seq::<usize>::empty(),
            final(self).cov_count == 0,
            final(self).prev_block == 0,
            final(self).fd_list@.len() == old(self).fd_list@.len(),
            forall|i: int|
                0 <= i < old(self).fd_list@.len() && old(self).fd_list@[i].ftype
                    != FileType::FUZZINPUT ==> final(self).fd_list@[i] == old(self).fd_list@[i],
            forall|i: int|
                0 <= i < old(self).fd_list@.len() && old(self).fd_list@[i].ftype
                    == FileType::FUZZINPUT ==> final(self).fd_list@[i].ftype
                    == FileType::FUZZINPUT && final(self).fd_list@[i].cursor == Some(0usize)
                    && final(self).fd_list@[i].backing == old(self).fd_list@[i].backing,
    {
        self.fuzz_input = input;
        self.error_flag = None;
        self.dirty = Vec::new();
        self.cov_count = 0;
        self.prev_block = 0;
        let n = self.fd_list.len();
        let mut i: usize = 0;
        while i < n
            invariant
                0 <= i <= n,
                n == self.fd_list@.len(),
                Emulator::heap_unchanged(*old(self), *self),
                self.fuzz_input@ == input@,
                self.fuzz_input_name@ == old(self).fuzz_input_name@,
                self._exit_conds@ == old(self)._exit_conds@,
                self._snapshot_addr == old(self)._snapshot_addr,
                self.error_flag is None,
                self.dirty@ =~= Seq::<usize>::empty(),
                self.cov_count == 0,
                self.prev_block == 0,
                old(self).wf(),
                forall|j: int|
                    0 <= j < n && old(self).fd_list@[j].ftype != FileType::FUZZINPUT
                        ==> self.fd_list@[j] == old(self).fd_list@[j],
                forall|j: int|
                    0 <= j < i && old(self).fd_list@[j].ftype == FileType::FUZZINPUT
                        ==> self.fd_list@[j].ftype == FileType::FUZZINPUT
                        && self.fd_list@[j].cursor == Some(0usize) && self.fd_list@[j].backing
                        == old(self).fd_list@[j].backing,
                forall|j: int|
                    i <= j < n ==> self.fd_list@[j] == old(self).fd_list@[j],
            decreases n - i,
        {
            if self.fd_list[i].ftype == FileType::FUZZINPUT {
                self.fd_list[i].cursor = Some(0);
            }
            i = i + 1;
        }
        proof {
            lemma_heap_wf_transfer(*old(self), *self);
        }
    }
}

/// Allocator well-formedness depends only on the allocator state: it
/// carries over to any environment with the same bump pointer and ledger.
pub proof fn lemma_heap_wf_transfer(pre: Emulator, post: Emulator)
    requires
        pre.heap_wf(),
        Emulator::heap_unchanged(pre, post),
    ensures
        post.heap_wf(),
{
    assert forall|b: usize| #[trigger] post.ledger().dom().contains(b) implies {
        &&& FIRSTALLOCATION <= b
        &&& b + post.ledger()[b] <= post.bump()
        &&& page_aligned(b as int)
        &&& page_aligned(post.ledger()[b] as int)
    } by {
        assert(pre.ledger().dom().contains(b));
    }
    assert forall|b1: usize, b2: usize|
        #[trigger] post.ledger().dom().contains(b1) && #[trigger] post.ledger().dom().contains(b2)
            && b1 != b2 implies b1 + post.ledger()[b1] <= b2 || b2 + post.ledger()[b2] <= b1 by {
        assert(pre.ledger().dom().contains(b1) && pre.ledger().dom().contains(b2));
    }
}

/// File-table well-formedness depends only on the descriptor entries and
/// the input length: it carries over to any environment that keeps them.
pub proof fn lemma_files_wf_transfer(pre: Emulator, post: Emulator)
    requires
        pre.files_wf(),
        post.fd_list@ == pre.fd_list@,
        post.fuzz_input@.len() == pre.fuzz_input@.len(),
    ensures
        post.files_wf(),
{
    assert forall|i: int|
        0 <= i < post.fd_list@.len() && (#[trigger] post.fd_list@[i]).ftype
            == FileType::FUZZINPUT implies (post.fd_list@[i].cursor matches Some(c) && c
        <= post.fuzz_input@.len()) by {
        assert(pre.fd_list@[i].ftype == FileType::FUZZINPUT);
    }
}

/// Two aligned addresses cannot sit strictly within one page of each
/// other: alignment forces a full-page gap.
pub proof fn lemma_aligned_gap(x: int, y: int)
    by (nonlinear_arith)
    requires
        page_aligned(x),
        page_aligned(y),
        y < x,
    ensures
        x >= y + 0x1000,
{
}

/// Successive successful allocations return strictly increasing,
/// page-aligned addresses whose recorded regions never overlap: the
/// second region starts at or after the end of the first.
pub proof fn lemma_allocate_increasing(
    s0: Emulator,
    s1: Emulator,
    s2: Emulator,
    size1: usize,
    size2: usize,
    base1: usize,
    base2: usize,
    p1: Perm,
    p2: Perm,
)
    requires
        Emulator::allocate_transition(s0, s1, size1, base1, p1),
        Emulator::allocate_transition(s1, s2, size2, base2, p2),
        size1 > 0,
    ensures
        page_aligned(base1 as int),
        page_aligned(base2 as int),
        base1 + page_round_up(size1) <= base2,
        base1 < base2,
{
    crate::lemma_page_round_up(size1);
}

/// Once a request does not fit the remaining budget, no request at least
/// as large ever fits while the allocator state is unchanged: a failed
/// `allocate` leaves the environment exactly as it was, so exhaustion is
/// permanent.
pub proof fn lemma_allocate_exhausted(s: Emulator, size: usize, larger: usize)
    requires
        s.wf(),
        !s.can_allocate(size),
        size <= larger,
    ensures
        !s.can_allocate(larger),
{
    if larger + 0xfff <= usize::MAX {
        crate::lemma_page_round_up(size);
        crate::lemma_page_round_up(larger);
        if page_round_up(larger) < page_round_up(size) {
            lemma_aligned_gap(page_round_up(size) as int, page_round_up(larger) as int);
        }
    }
}

} // verus!
