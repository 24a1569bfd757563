//! Syscall handlers, phrased as pure state transitions.  Each handler
//! takes the execution environment and the argument registers the
//! dispatcher read for it, and returns the effect to apply to the
//! emulation capability: a return-register value, an optional write into
//! emulated memory, an optional echo of target output, and whether
//! emulation stops.  Malformed arguments the real OS would reject come
//! back as OS-style error returns; conditions the harness cannot emulate
//! faithfully come back as a [`HarnessError`].

use vstd::prelude::*;

use crate::emulator::{Emulator, FileType, Fault, HarnessError};
use crate::emulator::{lemma_heap_wf_transfer, lemma_files_wf_transfer};

verus! {

/// The effect of one handled syscall.
#[derive(Debug, Clone, Eq, PartialEq)]
pub struct SysResult {
    /// Value to place in the architecture's return register.
    pub ret: Option<u64>,
    /// Bytes to store into emulated memory at the given address.
    pub mem_write: Option<(u64, Vec<u8>)>,
    /// Target output to echo (address and length of the written buffer),
    /// for the caller's tracing policy.
    pub echo: Option<(u64, usize)>,
    /// Stop the emulation after applying the effect.
    pub stop: bool,
}

/// A syscall that only places `v` in the return register.
pub open spec fn ret_only(r: SysResult, v: u64) -> bool {
    r.ret == Some(v) && r.mem_write is None && r.echo is None && !r.stop
}

/// Byte `i` of the little-endian image of a 64-bit value.
pub open spec fn le_u64_byte(v: u64, i: int) -> u8 {
    (v >> ((8 * i) as u64)) as u8
}

/// The 8-byte little-endian image of a 64-bit value.
pub open spec fn le_bytes64(v: u64) -> Seq<u8> {
    Seq::new(8, |i: int| le_u64_byte(v, i))
}

/// The 4-byte little-endian image of a 32-bit value.
pub open spec fn le_bytes32(v: u32) -> Seq<u8> {
    Seq::new(4, |i: int| le_u64_byte(v as u64, i))
}

/// Append the little-endian bytes of a 64-bit value.
pub fn push_u64_le(out: &mut Vec<u8>, v: u64)
    ensures
        final(out)@ == old(out)@ + le_bytes64(v),
{
    let mut i: usize = 0;
    while i < 8
        invariant
            0 <= i <= 8,
            out@ == old(out)@ + le_bytes64(v).take(i as int),
        decreases 8 - i,
    {
        out.push((v >> ((8 * i) as u64)) as u8);
        proof {
            assert(le_bytes64(v).take(i + 1) =~= le_bytes64(v).take(i as int).push(
                le_u64_byte(v, i as int),
            ));
            assert(out@ =~= old(out)@ + le_bytes64(v).take(i + 1));
        }
        i = i + 1;
    }
    proof {
        assert(le_bytes64(v).take(8) =~= le_bytes64(v));
    }
}

/// Append the little-endian bytes of a 32-bit value.
pub fn push_u32_le(out: &mut Vec<u8>, v: u32)
    ensures
        final(out)@ == old(out)@ + le_bytes32(v),
{
    let mut i: usize = 0;
    while i < 4
        invariant
            0 <= i <= 4,
            out@ == old(out)@ + le_bytes32(v).take(i as int),
        decreases 4 - i,
    {
        out.push(((v as u64) >> ((8 * i) as u64)) as u8);
        proof {
            assert(le_bytes32(v).take(i + 1) =~= le_bytes32(v).take(i as int).push(
                le_u64_byte(v as u64, i as int),
            ));
            assert(out@ =~= old(out)@ + le_bytes32(v).take(i + 1));
        }
        i = i + 1;
    }
    proof {
        assert(le_bytes32(v).take(4) =~= le_bytes32(v));
    }
}

/// The 512-byte block count reported for an input of `len` bytes.
pub open spec fn stat_blocks(len: int) -> int {
    (len + 511) / 512
}

/// The synthesized stat structure for the fuzz-input file, as the
/// C-layout byte image the target receives: fixed device, inode, mode,
/// link, owner and timestamp fields, with the size taken from the input
/// buffer's length.  Field order and offsets follow the 128-byte layout
/// libc expects.
pub open spec fn stat_bytes_spec(len: int) -> Seq<u8> {
    le_bytes64(0x803)  // st_dev
     + le_bytes64(0x81889)  // st_ino
     + le_bytes32(0x81a4)  // st_mode
     + le_bytes32(0x1)  // st_nlink
     + le_bytes32(0x3e8)  // st_uid
     + le_bytes32(0x3e8)  // st_gid
     + le_bytes64(0)  // st_rdev
     + le_bytes64(0)  // padding
     + le_bytes64(len as u64)  // st_size
     + le_bytes32(0x1000)  // st_blksize
     + le_bytes32(0)  // padding
     + le_bytes64(stat_blocks(len) as u64)  // st_blocks
     + le_bytes64(0x5f0fe246)  // st_atime
     + le_bytes64(0)  // st_atimensec
     + le_bytes64(0x5f0fe244)  // st_mtime
     + le_bytes64(0)  // st_mtimensec
     + le_bytes64(0x5f0fe244)  // st_ctime
     + le_bytes64(0)  // st_ctimensec
     + le_bytes32(0)  // reserved
     + le_bytes32(0)  // reserved
}

/// Build the synthesized stat image for an input of `len` bytes.
pub fn stat_bytes(len: usize) -> (r: Vec<u8>)
    requires
        len <= 0xffff_ffff_ffff_0000,
    ensures
        r@ == stat_bytes_spec(len as int),
        r@.len() == 128,
{
    let blocks: u64 = (len as u64) / 512 + (if (len as u64) % 512 == 0 {
        0
    } else {
        1
    });
    proof {
        assert(blocks == stat_blocks(len as int)) by (nonlinear_arith)
            requires
                blocks == len as u64 / 512 + (if len as u64 % 512 == 0 {
                    0u64
                } else {
                    1u64
                }),
                len <= 0xffff_ffff_ffff_0000,
        ;
    }
    let mut out: Vec<u8> = Vec::new();
    push_u64_le(&mut out, 0x803);
    push_u64_le(&mut out, 0x81889);
    push_u32_le(&mut out, 0x81a4);
    push_u32_le(&mut out, 0x1);
    push_u32_le(&mut out, 0x3e8);
    push_u32_le(&mut out, 0x3e8);
    push_u64_le(&mut out, 0);
    push_u64_le(&mut out, 0);
    push_u64_le(&mut out, len as u64);
    push_u32_le(&mut out, 0x1000);
    push_u32_le(&mut out, 0);
    push_u64_le(&mut out, blocks);
    push_u64_le(&mut out, 0x5f0fe246);
    push_u64_le(&mut out, 0);
    push_u64_le(&mut out, 0x5f0fe244);
    push_u64_le(&mut out, 0);
    push_u64_le(&mut out, 0x5f0fe244);
    push_u64_le(&mut out, 0);
    push_u32_le(&mut out, 0);
    push_u32_le(&mut out, 0);
    proof {
        assert(out@ =~= stat_bytes_spec(len as int));
    }
    out
}

/// True when the byte string holds a null terminator.
pub open spec fn has_null(s: Seq<u8>) -> bool {
    exists|i: int| 0 <= i < s.len() && s[i] == 0
}

/// `i` is the position of the first null byte of `s`.
pub open spec fn is_first_null(s: Seq<u8>, i: int) -> bool {
    0 <= i < s.len() && s[i] == 0 && (forall|j: int| 0 <= j < i ==> s[j] != 0)
}

/// The open and openat syscalls, given the bytes readable at the path
/// pointer.  The null-terminated name is scanned out and compared against
/// the configured fuzz-input path: a match allocates a fuzz-input
/// descriptor, any other name an `OTHER` descriptor, and the new index is
/// returned to the target.  When no terminator lies within the readable
/// bytes, the scan has run off mapped memory: the case stops with an
/// unmapped-read fault.
pub fn open(emu: &mut Emulator, name_mem: &Vec<u8>) -> (r: SysResult)
    requires
        old(emu).wf(),
        old(emu).fd_list@.len() < usize::MAX,
    ensures
        final(emu).wf(),
        Emulator::heap_unchanged(*old(emu), *final(emu)),
        Emulator::config_unchanged(*old(emu), *final(emu)),
        final(emu).dirty@ == old(emu).dirty@,
        final(emu).cov_count == old(emu).cov_count,
        final(emu).prev_block == old(emu).prev_block,
        !has_null(name_mem@) ==> {
            &&& final(emu).fd_list@ == old(emu).fd_list@
            &&& final(emu).error_flag == Some(Fault::ReadUnmapped)
            &&& r.ret is None
            &&& r.mem_write is None
            &&& r.echo is None
            &&& r.stop
        },
        has_null(name_mem@) ==> {
            &&& final(emu).error_flag == old(emu).error_flag
            &&& final(emu).fd_list@.len() == old(emu).fd_list@.len() + 1
            &&& forall|j: int|
                0 <= j < old(emu).fd_list@.len() ==> final(emu).fd_list@[j] == old(
                    emu,
                ).fd_list@[j]
            &&& ret_only(r, old(emu).fd_list@.len() as u64)
            &&& final(emu).fd_list@[old(emu).fd_list@.len() as int].cursor == Some(0usize)
            &&& forall|i: int|
                is_first_null(name_mem@, i) ==> final(emu).fd_list@[old(
                    emu,
                ).fd_list@.len() as int].ftype == (if name_mem@.subrange(0, i + 1) == old(
                    emu,
                ).fuzz_input_name@ {
                    FileType::FUZZINPUT
                } else {
                    FileType::OTHER
                })
        },
{
    let n = name_mem.len();
    let mut i: usize = 0;
    while i < n && name_mem[i] != 0
        invariant
            0 <= i <= n,
            n == name_mem@.len(),
            forall|j: int| 0 <= j < i ==> name_mem@[j] != 0,
        decreases n - i,
    {
        i = i + 1;
    }
    if i >= n {
        // No terminator within readable memory: the byte-by-byte path
        // read would have faulted.
        emu.error_flag = Some(Fault::ReadUnmapped);
        proof {
            lemma_heap_wf_transfer(*old(emu), *emu);
            lemma_files_wf_transfer(*old(emu), *emu);
        }
        return SysResult { ret: None, mem_write: None, echo: None, stop: true };
    }
    // Read the filename through its terminator.
    let mut name: Vec<u8> = Vec::new();
    let mut k: usize = 0;
    while k < i + 1
        invariant
            0 <= k <= i + 1,
            i < n,
            n == name_mem@.len(),
            name@ == name_mem@.subrange(0, k as int),
        decreases i + 1 - k,
    {
        name.push(name_mem[k]);
        proof {
            assert(name@ =~= name_mem@.subrange(0, k + 1));
        }
        k = k + 1;
    }
    let is_input = crate::bytes_eq(&name, &emu.fuzz_input_name);
    let ftype = if is_input {
        FileType::FUZZINPUT
    } else {
        FileType::OTHER
    };
    let fd = emu.alloc_file(ftype);
    proof {
        assert(is_first_null(name_mem@, i as int));
        assert forall|i2: int| is_first_null(name_mem@, i2) implies i2 == i as int by {
            if i2 < i {
                assert(name_mem@[i2] != 0);
            } else if i2 > i {
                assert(name_mem@[i as int] != 0);
            }
        }
    }
    SysResult { ret: Some(fd as u64), mem_write: None, echo: None, stop: false }
}

/// The exit and exit_group syscalls: stop the emulation without reporting
/// anything back to the target.
pub fn exit(_emu: &Emulator) -> (r: SysResult)
    ensures
        r.ret is None,
        r.mem_write is None,
        r.echo is None,
        r.stop,
{
    SysResult { ret: None, mem_write: None, echo: None, stop: true }
}

/// The fstat syscall.  A descriptor index outside the table fails with an
/// OS-style error return; the fuzz-input descriptor receives the
/// synthesized metadata written to `statbuf`; the standard streams and
/// closed descriptors fail with an OS-style error; a harness-backed
/// `OTHER` file is metadata the harness does not model, an unrecoverable
/// condition.
pub fn fstat(emu: &Emulator, fd: u64, statbuf: u64) -> (r: Result<SysResult, HarnessError>)
    requires
        emu.wf(),
        emu.fuzz_input@.len() <= 0xffff_ffff_ffff_0000,
    ensures
        fd >= emu.fd_list@.len() ==> (r matches Ok(s) && ret_only(s, u64::MAX)),
        fd < emu.fd_list@.len() && emu.fd_list@[fd as int].ftype == FileType::FUZZINPUT ==> (
        r matches Ok(s) && s.ret == Some(0u64) && !s.stop && s.echo is None && (
        s.mem_write matches Some(w) && w.0 == statbuf && w.1@ == stat_bytes_spec(
            emu.fuzz_input@.len() as int,
        ))),
        fd < emu.fd_list@.len() && emu.fd_list@[fd as int].ftype == FileType::OTHER ==> (r
            matches Err(e) && e == HarnessError::FstatUnsupported(fd as usize)),
        fd < emu.fd_list@.len() && emu.fd_list@[fd as int].ftype != FileType::FUZZINPUT
            && emu.fd_list@[fd as int].ftype != FileType::OTHER ==> (r matches Ok(s) && ret_only(
            s,
            u64::MAX,
        )),
{
    if fd >= emu.fd_list.len() as u64 {
        // The descriptor was never allocated: return out with an error.
        return Ok(
            SysResult { ret: Some(u64::MAX), mem_write: None, echo: None, stop: false },
        );
    }
    let idx = fd as usize;
    let ftype = emu.fd_list[idx].ftype;
    if ftype == FileType::FUZZINPUT {
        let stat = stat_bytes(emu.fuzz_input.len());
        Ok(
            SysResult {
                ret: Some(0),
                mem_write: Some((statbuf, stat)),
                echo: None,
                stop: false,
            },
        )
    } else if ftype != FileType::OTHER {
        Ok(SysResult { ret: Some(u64::MAX), mem_write: None, echo: None, stop: false })
    } else {
        // The harness synthesizes metadata only for the fuzz-input file.
        Err(HarnessError::FstatUnsupported(idx))
    }
}

/// The number of bytes a read of `count` bytes at `cursor` yields: what
/// is asked for, capped by what is still unread.
pub open spec fn read_len(input_len: int, cursor: int, count: int) -> int {
    if count <= input_len - cursor {
        count
    } else {
        input_len - cursor
    }
}

/// The bytes such a read yields.
pub open spec fn read_data(input: Seq<u8>, cursor: int, count: int) -> Seq<u8> {
    input.subrange(cursor, cursor + read_len(input.len() as int, cursor, count))
}

/// Two consecutive reads yield together exactly what one combined read
/// yields, and leave the cursor in the same place: the fuzz-input cursor
/// is monotone and never over-reads.
pub proof fn lemma_read_concat(input: Seq<u8>, cursor: int, n1: int, n2: int)
    requires
        0 <= cursor <= input.len(),
        0 <= n1,
        0 <= n2,
    ensures
        ({
            let c1 = cursor + read_len(input.len() as int, cursor, n1);
            read_data(input, cursor, n1) + read_data(input, c1, n2) =~= read_data(
                input,
                cursor,
                n1 + n2,
            ) && c1 + read_len(input.len() as int, c1, n2) == cursor + read_len(
                input.len() as int,
                cursor,
                n1 + n2,
            )
        }),
{
}

/// The read syscall.  An absent or closed descriptor fails with an
/// OS-style error return.  A read of the fuzz-input copies
/// `min(count, unread)` bytes from the input buffer at the cursor into
/// the target's buffer, returns that count, and advances the cursor by
/// it.  Reads of any other live descriptor report `count` without
/// copying anything.
pub fn read(emu: &mut Emulator, fd: u64, buf: u64, count: usize) -> (r: SysResult)
    requires
        old(emu).wf(),
    ensures
        final(emu).wf(),
        Emulator::heap_unchanged(*old(emu), *final(emu)),
        Emulator::config_unchanged(*old(emu), *final(emu)),
        Emulator::case_state_unchanged(*old(emu), *final(emu)),
        fd >= old(emu).fd_list@.len() || old(emu).fd_list@[fd as int].ftype == FileType::INVALID
            ==> final(emu).fd_list@ == old(emu).fd_list@ && ret_only(r, u64::MAX),
        fd < old(emu).fd_list@.len() && old(emu).fd_list@[fd as int].ftype == FileType::FUZZINPUT
            ==> {
            let off = old(emu).fd_list@[fd as int].cursor->Some_0 as int;
            let input = old(emu).fuzz_input@;
            let n = read_len(input.len() as int, off, count as int);
            &&& r.ret == Some(n as u64)
            &&& (r.mem_write matches Some(w) && w.0 == buf && w.1@ == read_data(
                input,
                off,
                count as int,
            ))
            &&& r.echo is None
            &&& !r.stop
            &&& final(emu).fd_list@.len() == old(emu).fd_list@.len()
            &&& forall|j: int|
                0 <= j < old(emu).fd_list@.len() && j != fd ==> final(emu).fd_list@[j] == old(
                    emu,
                ).fd_list@[j]
            &&& final(emu).fd_list@[fd as int].ftype == FileType::FUZZINPUT
            &&& final(emu).fd_list@[fd as int].cursor == Some((off + n) as usize)
            &&& final(emu).fd_list@[fd as int].backing == old(emu).fd_list@[fd as int].backing
        },
        fd < old(emu).fd_list@.len() && old(emu).fd_list@[fd as int].ftype != FileType::FUZZINPUT
            && old(emu).fd_list@[fd as int].ftype != FileType::INVALID ==> final(emu).fd_list@
            == old(emu).fd_list@ && ret_only(r, count as u64),
{
    if fd >= emu.fd_list.len() as u64 {
        return SysResult { ret: Some(u64::MAX), mem_write: None, echo: None, stop: false };
    }
    let idx = fd as usize;
    let ftype = emu.fd_list[idx].ftype;
    if ftype == FileType::INVALID {
        return SysResult { ret: Some(u64::MAX), mem_write: None, echo: None, stop: false };
    }
    if ftype == FileType::FUZZINPUT {
        let offset = match emu.fd_list[idx].cursor {
            Some(c) => c,
            None => 0,  // unreachable under the environment invariant
        };
        let input_len = emu.fuzz_input.len();
        let remaining = input_len - offset;
        let n = if count < remaining {
            count
        } else {
            remaining
        };
        let mut data: Vec<u8> = Vec::new();
        let mut i: usize = 0;
        while i < n
            invariant
                0 <= i <= n,
                emu.fuzz_input@.len() == input_len,
                offset + n <= input_len,
                data@ == emu.fuzz_input@.subrange(offset as int, offset + i),
            decreases n - i,
        {
            let j: usize = offset + i;
            data.push(emu.fuzz_input[j]);
            proof {
                assert(data@ =~= emu.fuzz_input@.subrange(offset as int, offset + i + 1));
            }
            i = i + 1;
        }
        emu.fd_list[idx].cursor = Some(offset + n);
        proof {
            lemma_heap_wf_transfer(*old(emu), *emu);
            assert(data@ =~= read_data(old(emu).fuzz_input@, offset as int, count as int));
        }
        return SysResult {
            ret: Some(n as u64),
            mem_write: Some((buf, data)),
            echo: None,
            stop: false,
        };
    }
    SysResult { ret: Some(count as u64), mem_write: None, echo: None, stop: false }
}

/// The write syscall.  An absent or closed descriptor fails with an
/// OS-style error return.  Writes to stdout or stderr are a no-op
/// reported as fully written, with the buffer offered back for echoing.
/// The harness does not model real file output: a write to any other
/// descriptor is an unrecoverable condition.
pub fn write(emu: &Emulator, fd: u64, buf: u64, count: usize) -> (r: Result<
    SysResult,
    HarnessError,
>)
    requires
        emu.wf(),
    ensures
        fd >= emu.fd_list@.len() || emu.fd_list@[fd as int].ftype == FileType::INVALID ==> (
        r matches Ok(s) && ret_only(s, u64::MAX)),
        fd < emu.fd_list@.len() && (emu.fd_list@[fd as int].ftype == FileType::STDOUT
            || emu.fd_list@[fd as int].ftype == FileType::STDERR) ==> (r matches Ok(s) && s.ret
            == Some(count as u64) && s.mem_write is None && s.echo == Some((buf, count))
            && !s.stop),
        fd < emu.fd_list@.len() && emu.fd_list@[fd as int].ftype != FileType::INVALID
            && emu.fd_list@[fd as int].ftype != FileType::STDOUT && emu.fd_list@[fd as int].ftype
            != FileType::STDERR ==> (r matches Err(e) && e == HarnessError::WriteUnsupportedFile(
            fd as usize,
        )),
{
    if fd >= emu.fd_list.len() as u64 {
        return Ok(SysResult { ret: Some(u64::MAX), mem_write: None, echo: None, stop: false });
    }
    let idx = fd as usize;
    let ftype = emu.fd_list[idx].ftype;
    if ftype == FileType::INVALID {
        return Ok(SysResult { ret: Some(u64::MAX), mem_write: None, echo: None, stop: false });
    }
    if ftype == FileType::STDOUT || ftype == FileType::STDERR {
        Ok(
            SysResult {
                ret: Some(count as u64),
                mem_write: None,
                echo: Some((buf, count)),
                stop: false,
            },
        )
    } else {
        Err(HarnessError::WriteUnsupportedFile(idx))
    }
}

/// The brk syscall.  Only the zero-argument query form is supported and
/// answers zero; heap growth is deliberately routed through the allocator
/// hooks, so any real break request is an unrecoverable condition.
pub fn brk(base: u64) -> (r: Result<SysResult, HarnessError>)
    ensures
        base == 0 ==> (r matches Ok(s) && ret_only(s, 0)),
        base != 0 ==> (r matches Err(e) && e == HarnessError::BrkUnsupported(base)),
{
    if base == 0 {
        Ok(SysResult { ret: Some(0), mem_write: None, echo: None, stop: false })
    } else {
        Err(HarnessError::BrkUnsupported(base))
    }
}

/// The close syscall.  An absent descriptor fails with an OS-style error
/// return; otherwise the slot is marked invalid - it is never removed or
/// reused - and the call reports success.
pub fn close(emu: &mut Emulator, fd: u64) -> (r: SysResult)
    requires
        old(emu).wf(),
    ensures
        final(emu).wf(),
        Emulator::heap_unchanged(*old(emu), *final(emu)),
        Emulator::config_unchanged(*old(emu), *final(emu)),
        Emulator::case_state_unchanged(*old(emu), *final(emu)),
        fd >= old(emu).fd_list@.len() ==> final(emu).fd_list@ == old(emu).fd_list@ && ret_only(
            r,
            u64::MAX,
        ),
        fd < old(emu).fd_list@.len() ==> {
            &&& final(emu).fd_list@.len() == old(emu).fd_list@.len()
            &&& forall|j: int|
                0 <= j < old(emu).fd_list@.len() && j != fd ==> final(emu).fd_list@[j] == old(
                    emu,
                ).fd_list@[j]
            &&& final(emu).fd_list@[fd as int].ftype == FileType::INVALID
            &&& final(emu).fd_list@[fd as int].backing == old(emu).fd_list@[fd as int].backing
            &&& final(emu).fd_list@[fd as int].cursor == old(emu).fd_list@[fd as int].cursor
            &&& ret_only(r, 0)
        },
{
    if fd >= emu.fd_list.len() as u64 {
        return SysResult { ret: Some(u64::MAX), mem_write: None, echo: None, stop: false };
    }
    let idx = fd as usize;
    emu.fd_list[idx].ftype = FileType::INVALID;
    proof {
        lemma_heap_wf_transfer(*old(emu), *emu);
    }
    SysResult { ret: Some(0), mem_write: None, echo: None, stop: false }
}

} // verus!
