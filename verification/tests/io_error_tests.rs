use lib::io_error::{
    decode_error_kind, errno, error_string, is_interrupted, set_errno, Errno, ErrorKind, IoError,
};

#[test]
fn decode_error_kind_maps_known_numbers() {
    assert_eq!(decode_error_kind(1), ErrorKind::PermissionDenied);
    assert_eq!(decode_error_kind(13), ErrorKind::PermissionDenied);
    assert_eq!(decode_error_kind(2), ErrorKind::NotFound);
    assert_eq!(decode_error_kind(5), ErrorKind::Other);
    assert_eq!(decode_error_kind(9), ErrorKind::InvalidInput);
    assert_eq!(decode_error_kind(22), ErrorKind::InvalidInput);
    assert_eq!(decode_error_kind(11), ErrorKind::WouldBlock);
    assert_eq!(decode_error_kind(12), ErrorKind::OutOfMemory);
    assert_eq!(decode_error_kind(17), ErrorKind::AlreadyExists);
    assert_eq!(decode_error_kind(38), ErrorKind::Unsupported);
    assert_eq!(decode_error_kind(110), ErrorKind::TimedOut);
}

#[test]
fn decode_error_kind_unknown_numbers_are_uncategorized() {
    assert_eq!(decode_error_kind(0), ErrorKind::Uncategorized);
    assert_eq!(decode_error_kind(-1), ErrorKind::Uncategorized);
    assert_eq!(decode_error_kind(4), ErrorKind::Uncategorized);
    assert_eq!(decode_error_kind(i32::MAX), ErrorKind::Uncategorized);
}

#[test]
fn error_string_describes_each_number() {
    assert_eq!(error_string(1), "operation not permitted");
    assert_eq!(error_string(2), "no such file or directory");
    assert_eq!(error_string(5), "I/O error");
    assert_eq!(error_string(9), "bad file descriptor");
    assert_eq!(error_string(11), "operation would block");
    assert_eq!(error_string(12), "out of memory");
    assert_eq!(error_string(13), "permission denied");
    assert_eq!(error_string(17), "file already exists");
    assert_eq!(error_string(22), "invalid argument");
    assert_eq!(error_string(38), "function not implemented");
    assert_eq!(error_string(110), "operation timed out");
    assert_eq!(error_string(999), "unknown Open Kernel error");
    assert_eq!(error_string(-5), "unknown Open Kernel error");
}

#[test]
fn errno_reads_back_last_set_value() {
    let mut slot = Errno::new();
    assert_eq!(errno(&slot), 0);
    set_errno(&mut slot, 12);
    assert_eq!(errno(&slot), 12);
    set_errno(&mut slot, -3);
    assert_eq!(errno(&slot), -3);
}

#[test]
fn nothing_is_interrupted() {
    assert!(!is_interrupted(0));
    assert!(!is_interrupted(4));
    assert!(!is_interrupted(11));
}

#[test]
fn io_error_kinds() {
    assert_eq!(IoError::UnsupportedPlatform.kind(), ErrorKind::Unsupported);
    assert_eq!(IoError::Simple(ErrorKind::BrokenPipe).kind(), ErrorKind::BrokenPipe);
    assert_eq!(IoError::Os(2).kind(), ErrorKind::NotFound);
    assert_eq!(IoError::Os(1234).kind(), ErrorKind::Uncategorized);
}

#[test]
fn io_error_messages_and_codes() {
    assert_eq!(
        IoError::UnsupportedPlatform.message(),
        Some("operation not supported on this platform".to_string())
    );
    assert_eq!(IoError::UnsupportedPlatform.raw_os_error(), None);
    assert_eq!(IoError::Simple(ErrorKind::Other).message(), None);
    assert_eq!(IoError::Simple(ErrorKind::Other).raw_os_error(), None);
    assert_eq!(IoError::Os(2).message(), Some("no such file or directory".to_string()));
    assert_eq!(IoError::Os(2).raw_os_error(), Some(2));
}
