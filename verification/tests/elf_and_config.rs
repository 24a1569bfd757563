//! ELF parsing and loading, the little-endian codecs, the initial stack
//! image, the command-line handling, and dictionary parsing.

use zfuzz::config::{handle_cli, Cli, CliError};
use zfuzz::elf::{
    load_elf_segments, parse_elf_header, verify_elf_hdr, ElfError, ElfHeader,
};
use zfuzz::stack::initial_stack_data;

fn good_header() -> ElfHeader {
    ElfHeader {
        magic: 0x464c457f,
        bitsize: 2,
        endian: 1,
        o_type: 2,
        machine: 0xf3,
        entry_addr: 0x10000,
        phoff: 64,
        phnum: 0,
        phentsize: 56,
    }
}

fn put16(buf: &mut Vec<u8>, off: usize, v: u16) {
    buf[off] = v as u8;
    buf[off + 1] = (v >> 8) as u8;
}

fn put32(buf: &mut Vec<u8>, off: usize, v: u32) {
    for i in 0..4 {
        buf[off + i] = (v >> (8 * i)) as u8;
    }
}

fn put64(buf: &mut Vec<u8>, off: usize, v: u64) {
    for i in 0..8 {
        buf[off + i] = (v >> (8 * i)) as u8;
    }
}

/// A minimal RISCV64 executable: one loadable segment with 4 file bytes
/// and 8 memory bytes.
fn tiny_elf() -> Vec<u8> {
    let mut f = vec![0u8; 124];
    put32(&mut f, 0, 0x464c457f);
    f[4] = 2; // 64-bit
    f[5] = 1; // little-endian
    put16(&mut f, 16, 2); // executable
    put16(&mut f, 18, 0xf3); // RISCV
    put64(&mut f, 24, 0x10080); // entry
    put64(&mut f, 32, 64); // phoff
    put16(&mut f, 54, 56); // phentsize
    put16(&mut f, 56, 1); // phnum
    // Program header at 64.
    put32(&mut f, 64, 1); // LOAD
    put32(&mut f, 68, 5); // flags: read + execute
    put64(&mut f, 72, 120); // offset
    put64(&mut f, 80, 0x10010); // vaddr
    put64(&mut f, 96, 4); // filesz
    put64(&mut f, 104, 8); // memsz
    put64(&mut f, 112, 0x1000); // align
    f[120] = 0xde;
    f[121] = 0xad;
    f[122] = 0xbe;
    f[123] = 0xef;
    f
}

#[test]
fn verify_elf_hdr_accepts_a_suitable_binary() {
    assert!(verify_elf_hdr(good_header()).is_ok());
}

#[test]
fn verify_elf_hdr_reports_the_first_failing_check() {
    let mut h = good_header();
    h.magic = 0x12345678;
    assert_eq!(verify_elf_hdr(h), Err(ElfError::BadMagic));
    let mut h = good_header();
    h.endian = 2;
    assert_eq!(verify_elf_hdr(h), Err(ElfError::BadEndian));
    let mut h = good_header();
    h.o_type = 3;
    assert_eq!(verify_elf_hdr(h), Err(ElfError::NotExecutable));
    let mut h = good_header();
    h.bitsize = 1;
    assert_eq!(verify_elf_hdr(h), Err(ElfError::Not64Bit));
    let mut h = good_header();
    h.machine = 0x3e;
    assert_eq!(verify_elf_hdr(h), Err(ElfError::NotRiscv));
}

#[test]
fn parse_elf_header_reads_the_fields() {
    let f = tiny_elf();
    let h = parse_elf_header(&f).unwrap();
    assert_eq!(h.magic, 0x464c457f);
    assert_eq!(h.bitsize, 2);
    assert_eq!(h.endian, 1);
    assert_eq!(h.o_type, 2);
    assert_eq!(h.machine, 0xf3);
    assert_eq!(h.entry_addr, 0x10080);
    assert_eq!(h.phoff, 64);
    assert_eq!(h.phnum, 1);
    assert_eq!(h.phentsize, 56);
}

#[test]
fn parse_elf_header_rejects_short_files() {
    assert_eq!(parse_elf_header(&vec![0u8; 63]), Err(ElfError::Truncated));
}

#[test]
fn load_elf_segments_builds_the_plan() {
    let f = tiny_elf();
    let plan = load_elf_segments(&f).unwrap();
    assert_eq!(plan.entry, 0x10080);
    assert_eq!(plan.segments.len(), 1);
    let seg = &plan.segments[0];
    assert_eq!(seg.vaddr, 0x10010);
    assert_eq!(seg.aligned_addr, 0x10000);
    assert_eq!(seg.aligned_size, 0x1000);
    assert!(seg.perms.read);
    assert!(!seg.perms.write);
    assert!(seg.perms.execute);
    // Memory image: the 4 file bytes, zero-padded to 8.
    assert_eq!(seg.data, vec![0xde, 0xad, 0xbe, 0xef, 0, 0, 0, 0]);
}

#[test]
fn load_elf_segments_rejects_wrong_machines() {
    let mut f = tiny_elf();
    put16(&mut f, 18, 0x3e);
    assert_eq!(load_elf_segments(&f), Err(ElfError::NotRiscv));
}

#[test]
fn load_elf_segments_rejects_truncated_segments() {
    let mut f = tiny_elf();
    put64(&mut f, 96, 4000); // filesz far past the end of the file
    put64(&mut f, 104, 4000);
    assert_eq!(load_elf_segments(&f), Err(ElfError::Truncated));
}

#[test]
fn load_elf_segments_rejects_malformed_alignment() {
    let mut f = tiny_elf();
    put64(&mut f, 112, 0); // alignment of zero
    assert_eq!(load_elf_segments(&f), Err(ElfError::BadSegment));
    let mut f = tiny_elf();
    put64(&mut f, 112, 0x300); // not a power of two
    assert_eq!(load_elf_segments(&f), Err(ElfError::BadSegment));
    let mut f = tiny_elf();
    put16(&mut f, 54, 32); // wrong program-header entry size
    assert_eq!(load_elf_segments(&f), Err(ElfError::BadSegment));
}

#[test]
fn initial_stack_image_lays_out_argc_argv_and_terminators() {
    let argv = vec![0xdead0000u64, 0xbeef0000u64];
    let img = initial_stack_data(&argv);
    assert_eq!(img.len(), 8 * 6);
    let word = |w: usize| -> u64 {
        let mut v = 0u64;
        for i in 0..8 {
            v |= (img[8 * w + i] as u64) << (8 * i);
        }
        v
    };
    assert_eq!(word(0), 2); // argc
    assert_eq!(word(1), 0xdead0000);
    assert_eq!(word(2), 0xbeef0000);
    assert_eq!(word(3), 0); // argv terminator
    assert_eq!(word(4), 0); // envp terminator
    assert_eq!(word(5), 0); // auxp terminator
}

fn base_cli(args: Vec<&[u8]>) -> Cli {
    Cli {
        version: false,
        help: false,
        debug_print: false,
        extension: None,
        snapshot: None,
        fuzzed_app: args.into_iter().map(|a| a.to_vec()).collect(),
    }
}

#[test]
fn handle_cli_requires_a_target() {
    let mut cli = base_cli(vec![]);
    assert_eq!(handle_cli(&mut cli), Err(CliError::NoTarget));
}

#[test]
fn handle_cli_requires_the_input_marker() {
    let mut cli = base_cli(vec![b"./target", b"-x"]);
    assert_eq!(handle_cli(&mut cli), Err(CliError::NoInputMarker));
    assert_eq!(cli.fuzzed_app[0], b"./target".to_vec());
}

#[test]
fn handle_cli_substitutes_the_first_marker() {
    let mut cli = base_cli(vec![b"./target", b"@@", b"@@"]);
    let name = handle_cli(&mut cli).unwrap();
    assert_eq!(name, b"fuzz_input\0".to_vec());
    assert_eq!(cli.fuzzed_app[0], b"./target".to_vec());
    assert_eq!(cli.fuzzed_app[1], b"fuzz_input\0".to_vec());
    // Only the first marker is substituted.
    assert_eq!(cli.fuzzed_app[2], b"@@".to_vec());
}

#[test]
fn handle_cli_appends_the_requested_extension() {
    let mut cli = base_cli(vec![b"app", b"@@"]);
    cli.extension = Some(b"png".to_vec());
    let name = handle_cli(&mut cli).unwrap();
    assert_eq!(name, b"fuzz_input.png\0".to_vec());
    assert_eq!(cli.fuzzed_app[1], b"fuzz_input.png\0".to_vec());
}
