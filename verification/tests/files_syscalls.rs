//! File-table and syscall-handler behaviour: the fuzz-input pseudo-file,
//! cursor discipline, and the OS-style versus unrecoverable error split.

use zfuzz::emulator::{Emulator, File, FileType, Fault, HarnessError};
use zfuzz::syscalls;

fn input_name() -> Vec<u8> {
    b"fuzz_input\0".to_vec()
}

fn env_with_input(input: &[u8]) -> Emulator {
    let mut emu = Emulator::new();
    emu.fuzz_input_name = input_name();
    emu.reset_case(input.to_vec());
    emu
}

#[test]
fn file_new_shapes_each_kind() {
    let f = File::new(FileType::OTHER);
    assert_eq!(f.ftype, FileType::OTHER);
    assert_eq!(f.backing, Some(Vec::new()));
    assert_eq!(f.cursor, Some(0));
    let f = File::new(FileType::FUZZINPUT);
    assert_eq!(f.ftype, FileType::FUZZINPUT);
    assert_eq!(f.backing, None);
    assert_eq!(f.cursor, Some(0));
    let f = File::new(FileType::STDIN);
    assert_eq!(f.backing, None);
    assert_eq!(f.cursor, None);
}

#[test]
fn standard_streams_occupy_the_first_three_slots() {
    let emu = Emulator::new();
    assert_eq!(emu.fd_list.len(), 3);
    assert_eq!(emu.fd_list[0].ftype, FileType::STDIN);
    assert_eq!(emu.fd_list[1].ftype, FileType::STDOUT);
    assert_eq!(emu.fd_list[2].ftype, FileType::STDERR);
}

#[test]
fn open_two_reads_and_exhaustion() {
    // Opening the configured path, writing 4 input bytes, then two
    // 2-byte reads must yield "AB" then "CD", leave the cursor at 4,
    // and a third read must return 0 bytes.
    let mut emu = env_with_input(&[0x41, 0x42, 0x43, 0x44]);
    let r = syscalls::open(&mut emu, &input_name());
    assert_eq!(r.ret, Some(3));
    assert!(!r.stop);
    assert_eq!(emu.fd_list[3].ftype, FileType::FUZZINPUT);

    let r1 = syscalls::read(&mut emu, 3, 0x5000, 2);
    assert_eq!(r1.ret, Some(2));
    let (addr, bytes) = r1.mem_write.unwrap();
    assert_eq!(addr, 0x5000);
    assert_eq!(bytes, b"AB".to_vec());

    let r2 = syscalls::read(&mut emu, 3, 0x5002, 2);
    assert_eq!(r2.ret, Some(2));
    assert_eq!(r2.mem_write.unwrap().1, b"CD".to_vec());

    assert_eq!(emu.fd_list[3].cursor, Some(4));

    let r3 = syscalls::read(&mut emu, 3, 0x5004, 100);
    assert_eq!(r3.ret, Some(0));
    assert_eq!(r3.mem_write.unwrap().1, Vec::<u8>::new());
}

#[test]
fn consecutive_reads_equal_one_combined_read() {
    let input: Vec<u8> = (0u8..50).collect();
    let mut emu1 = env_with_input(&input);
    syscalls::open(&mut emu1, &input_name());
    let a = syscalls::read(&mut emu1, 3, 0, 17).mem_write.unwrap().1;
    let b = syscalls::read(&mut emu1, 3, 0, 40).mem_write.unwrap().1;

    let mut emu2 = env_with_input(&input);
    syscalls::open(&mut emu2, &input_name());
    let c = syscalls::read(&mut emu2, 3, 0, 57).mem_write.unwrap().1;

    let mut joined = a.clone();
    joined.extend_from_slice(&b);
    assert_eq!(joined, c);
    assert_eq!(emu1.fd_list[3].cursor, emu2.fd_list[3].cursor);
}

#[test]
fn read_never_returns_more_than_unread() {
    let mut emu = env_with_input(&[1, 2, 3]);
    syscalls::open(&mut emu, &input_name());
    let r = syscalls::read(&mut emu, 3, 0, 1000);
    assert_eq!(r.ret, Some(3));
    assert_eq!(r.mem_write.unwrap().1.len(), 3);
}

#[test]
fn open_routes_other_names_to_plain_files() {
    let mut emu = env_with_input(&[9]);
    let r = syscalls::open(&mut emu, &b"/etc/hosts\0".to_vec());
    assert_eq!(r.ret, Some(3));
    assert_eq!(emu.fd_list[3].ftype, FileType::OTHER);
    // Reads of a plain file report the requested count without copying.
    let rr = syscalls::read(&mut emu, 3, 0, 7);
    assert_eq!(rr.ret, Some(7));
    assert!(rr.mem_write.is_none());
}

#[test]
fn open_without_terminator_faults_the_case() {
    let mut emu = env_with_input(&[9]);
    let r = syscalls::open(&mut emu, &b"no terminator here".to_vec());
    assert!(r.stop);
    assert_eq!(r.ret, None);
    assert_eq!(emu.error_flag, Some(Fault::ReadUnmapped));
    assert_eq!(emu.fd_list.len(), 3);
}

#[test]
fn read_of_bad_descriptors_is_an_os_error() {
    let mut emu = env_with_input(&[1]);
    assert_eq!(syscalls::read(&mut emu, 99, 0, 4).ret, Some(u64::MAX));
    let fd = syscalls::open(&mut emu, &input_name()).ret.unwrap();
    syscalls::close(&mut emu, fd);
    assert_eq!(syscalls::read(&mut emu, fd, 0, 4).ret, Some(u64::MAX));
}

#[test]
fn close_marks_the_slot_invalid_forever() {
    let mut emu = env_with_input(&[1]);
    let r = syscalls::close(&mut emu, 1);
    assert_eq!(r.ret, Some(0));
    assert_eq!(emu.fd_list[1].ftype, FileType::INVALID);
    // The slot count never shrinks; closing an absent index errs.
    assert_eq!(emu.fd_list.len(), 3);
    assert_eq!(syscalls::close(&mut emu, 42).ret, Some(u64::MAX));
}

#[test]
fn write_is_supported_for_stdout_and_stderr_only() {
    let mut emu = env_with_input(&[1]);
    let r = syscalls::write(&emu, 1, 0x100, 5).unwrap();
    assert_eq!(r.ret, Some(5));
    assert_eq!(r.echo, Some((0x100, 5)));
    let r = syscalls::write(&emu, 2, 0x200, 9).unwrap();
    assert_eq!(r.ret, Some(9));
    // A write to a harness-backed file cannot be modelled faithfully.
    let fd = syscalls::open(&mut emu, &b"out.txt\0".to_vec()).ret.unwrap();
    assert_eq!(
        syscalls::write(&emu, fd, 0, 3),
        Err(HarnessError::WriteUnsupportedFile(fd as usize))
    );
    // A write to an absent or closed descriptor is an OS-style error.
    assert_eq!(syscalls::write(&emu, 77, 0, 3).unwrap().ret, Some(u64::MAX));
}

#[test]
fn fstat_synthesizes_metadata_for_the_fuzz_input() {
    let mut emu = env_with_input(&[7, 7, 7, 7]);
    let fd = syscalls::open(&mut emu, &input_name()).ret.unwrap();
    let r = syscalls::fstat(&emu, fd, 0xbeef).unwrap();
    assert_eq!(r.ret, Some(0));
    let (addr, stat) = r.mem_write.unwrap();
    assert_eq!(addr, 0xbeef);
    assert_eq!(stat.len(), 128);
    // st_dev.
    assert_eq!(&stat[0..8], &[0x03, 0x08, 0, 0, 0, 0, 0, 0]);
    // st_size is the input length.
    assert_eq!(&stat[48..56], &[4, 0, 0, 0, 0, 0, 0, 0]);
    // st_blksize.
    assert_eq!(&stat[56..60], &[0x00, 0x10, 0, 0]);
    // st_blocks: one 512-byte block for 4 bytes.
    assert_eq!(&stat[64..72], &[1, 0, 0, 0, 0, 0, 0, 0]);
}

#[test]
fn fstat_of_other_kinds() {
    let mut emu = env_with_input(&[1]);
    // The standard streams answer with an OS-style error.
    assert_eq!(syscalls::fstat(&emu, 0, 0).unwrap().ret, Some(u64::MAX));
    assert_eq!(syscalls::fstat(&emu, 99, 0).unwrap().ret, Some(u64::MAX));
    // A harness-backed file's metadata is not modelled.
    let fd = syscalls::open(&mut emu, &b"x\0".to_vec()).ret.unwrap();
    assert_eq!(
        syscalls::fstat(&emu, fd, 0),
        Err(HarnessError::FstatUnsupported(fd as usize))
    );
}

#[test]
fn brk_supports_only_the_query_form() {
    let r = syscalls::brk(0).unwrap();
    assert_eq!(r.ret, Some(0));
    assert_eq!(syscalls::brk(0x2000), Err(HarnessError::BrkUnsupported(0x2000)));
}

#[test]
fn exit_stops_the_emulation() {
    let emu = Emulator::new();
    let r = syscalls::exit(&emu);
    assert!(r.stop);
    assert_eq!(r.ret, None);
}

#[test]
fn reset_case_clears_per_case_state() {
    let mut emu = env_with_input(&[1, 2, 3]);
    let fd = syscalls::open(&mut emu, &input_name()).ret.unwrap();
    syscalls::read(&mut emu, fd, 0, 2);
    emu.error_flag = Some(Fault::WriteUnmapped);
    emu.dirty.push(0x1000);
    emu.reset_case(vec![9, 9]);
    assert_eq!(emu.error_flag, None);
    assert!(emu.dirty.is_empty());
    assert_eq!(emu.cov_count, 0);
    assert_eq!(emu.prev_block, 0);
    assert_eq!(emu.fuzz_input, vec![9, 9]);
    // The fuzz-input cursor rewinds; the descriptor table persists.
    assert_eq!(emu.fd_list[fd as usize].cursor, Some(0));
    assert_eq!(emu.fd_list[fd as usize].ftype, FileType::FUZZINPUT);
}
