use lib::io_error::{ErrorKind, IoError};
use lib::stdio::{
    console_chunk_len, console_key, console_write_result, first_nonempty, is_ebadf, panic_output,
    ConsoleRead, Stdin, Stdout,
};

/// Feeds keys to a read until it is over; returns the buffer index and bytes.
fn run(capacities: Vec<usize>, keys: &[u8]) -> (usize, Vec<u8>, usize) {
    let mut read = ConsoleRead::new(capacities);
    let mut used = 0;
    while read.wants_key() {
        read.accept_key(keys[used]);
        used += 1;
    }
    let (index, bytes) = read.result();
    (index, bytes.clone(), used)
}

#[test]
fn read_stops_after_newline() {
    assert_eq!(run(vec![16], b"hi\nrest"), (0, b"hi\n".to_vec(), 3));
}

#[test]
fn read_stops_at_zero_key() {
    assert_eq!(run(vec![16], b"ab\0cd"), (0, b"ab".to_vec(), 3));
}

#[test]
fn read_stops_when_full() {
    assert_eq!(run(vec![2], b"abc"), (0, b"ab".to_vec(), 2));
}

#[test]
fn read_into_nothing() {
    assert_eq!(run(vec![], b""), (0, Vec::new(), 0));
    assert_eq!(run(vec![0, 0], b""), (2, Vec::new(), 0));
}

#[test]
fn vectored_read_moves_on_from_empty_reads() {
    assert_eq!(run(vec![0, 4, 4], b"\0xy\n"), (2, b"xy\n".to_vec(), 4));
    assert_eq!(run(vec![4, 4], b"\0\0"), (2, Vec::new(), 2));
    assert_eq!(run(vec![4, 4], b"ab\0"), (0, b"ab".to_vec(), 3));
}

#[test]
fn console_key_takes_low_byte() {
    assert_eq!(console_key(0x41), 0x41);
    assert_eq!(console_key(0x1_0a), 0x0a);
    assert_eq!(console_key(0), 0);
}

#[test]
fn console_write_chunks() {
    assert_eq!(console_chunk_len(0), 0);
    assert_eq!(console_chunk_len(10), 10);
    assert_eq!(console_chunk_len(256), 256);
    assert_eq!(console_chunk_len(1000), 256);
}

#[test]
fn console_write_result_decodes() {
    assert_eq!(console_write_result(12), Ok(12));
    assert_eq!(console_write_result(0), Ok(0));
    assert_eq!(console_write_result(usize::MAX), Err(IoError::Simple(ErrorKind::Other)));
    assert_eq!(console_write_result(-5isize as usize), Err(IoError::Simple(ErrorKind::Other)));
    assert_eq!(console_write_result(isize::MIN as usize), Err(IoError::Simple(ErrorKind::Other)));
    assert_eq!(console_write_result(isize::MAX as usize), Ok(isize::MAX as usize));
}

#[test]
fn first_nonempty_buffer() {
    assert_eq!(first_nonempty(&vec![0, 0, 3, 4]), Some(2));
    assert_eq!(first_nonempty(&vec![5]), Some(0));
    assert_eq!(first_nonempty(&vec![0, 0]), None);
    assert_eq!(first_nonempty(&vec![]), None);
}

#[test]
fn is_ebadf_means_broken_pipe() {
    assert!(is_ebadf(&IoError::Simple(ErrorKind::BrokenPipe)));
    assert!(!is_ebadf(&IoError::Simple(ErrorKind::Other)));
    assert!(!is_ebadf(&IoError::Os(9)));
    assert!(!is_ebadf(&IoError::UnsupportedPlatform));
}

#[test]
fn handles_and_panic_output() {
    let _stdin = Stdin::new();
    let _stdout = Stdout::new();
    assert!(panic_output().is_some());
}

#[test]
fn same_keys_same_bytes_for_any_buffer_form() {
    let keys = b"line\nmore";
    let single = run(vec![8], keys);
    let again = run(vec![8], keys);
    assert_eq!(single, again);
    assert_eq!(single, (0, b"line\n".to_vec(), 5));
    let vectored = run(vec![0, 8], keys);
    assert_eq!(vectored, (1, b"line\n".to_vec(), 5));
}
