//! Open Kernel syscall error translation.
//!
//! Syscalls return a non-negative value on success. Failures are encoded as a
//! negative `isize` whose magnitude is a stable Open Kernel error number.
//! Unknown values remain raw OS errors and map to `ErrorKind::Uncategorized`.
use vstd::prelude::*;

verus! {

pub const EPERM: i32 = 1;
pub const ENOENT: i32 = 2;
pub const EIO: i32 = 5;
pub const EBADF: i32 = 9;
pub const EAGAIN: i32 = 11;
pub const ENOMEM: i32 = 12;
pub const EACCES: i32 = 13;
pub const EEXIST: i32 = 17;
pub const EINVAL: i32 = 22;
pub const ENOSYS: i32 = 38;
pub const ETIMEDOUT: i32 = 110;

/// The categories of I/O error that the platform layer reports.
#[derive(PartialEq, Eq, Structural, Clone, Copy, Debug)]
pub enum ErrorKind {
    NotFound,
    PermissionDenied,
    BrokenPipe,
    AlreadyExists,
    WouldBlock,
    InvalidInput,
    TimedOut,
    Unsupported,
    OutOfMemory,
    Other,
    Uncategorized,
}

/// The category of an Open Kernel error number.
pub open spec fn kind_of_errno(error: i32) -> ErrorKind {
    if error == EPERM || error == EACCES {
        ErrorKind::PermissionDenied
    } else if error == ENOENT {
        ErrorKind::NotFound
    } else if error == EIO {
        ErrorKind::Other
    } else if error == EBADF || error == EINVAL {
        ErrorKind::InvalidInput
    } else if error == EAGAIN {
        ErrorKind::WouldBlock
    } else if error == ENOMEM {
        ErrorKind::OutOfMemory
    } else if error == EEXIST {
        ErrorKind::AlreadyExists
    } else if error == ENOSYS {
        ErrorKind::Unsupported
    } else if error == ETIMEDOUT {
        ErrorKind::TimedOut
    } else {
        ErrorKind::Uncategorized
    }
}

/// The description of an Open Kernel error number.
pub open spec fn errno_message(error: i32) -> &'static str {
    if error == EPERM {
        "operation not permitted"
    } else if error == ENOENT {
        "no such file or directory"
    } else if error == EIO {
        "I/O error"
    } else if error == EBADF {
        "bad file descriptor"
    } else if error == EAGAIN {
        "operation would block"
    } else if error == ENOMEM {
        "out of memory"
    } else if error == EACCES {
        "permission denied"
    } else if error == EEXIST {
        "file already exists"
    } else if error == EINVAL {
        "invalid argument"
    } else if error == ENOSYS {
        "function not implemented"
    } else if error == ETIMEDOUT {
        "operation timed out"
    } else {
        "unknown Open Kernel error"
    }
}

/// The error number that the last failing call recorded.
pub struct Errno {
    value: i32,
}

impl View for Errno {
    type V = i32;

    closed spec fn view(&self) -> i32 {
        self.value
    }
}

impl Errno {
    /// A slot that holds no error yet (error number 0).
    pub fn new() -> (slot: Errno)
        ensures
            slot@ == 0,
    {
        Errno { value: 0 }
    }
}

/// Reads the error number last stored in `slot`.
pub fn errno(slot: &Errno) -> (error: i32)
    ensures
        error == slot@,
{
    slot.value
}

/// Stores `error` in `slot`; a later `errno` reads it back.
pub fn set_errno(slot: &mut Errno, error: i32)
    ensures
        final(slot)@ == error,
{
    slot.value = error;
}

/// Whether an error number means "interrupted"; Open Kernel never interrupts syscalls.
pub fn is_interrupted(_error: i32) -> (interrupted: bool)
    ensures
        !interrupted,
{
    false
}

/// Maps an Open Kernel error number to its error category.
pub fn decode_error_kind(error: i32) -> (kind: ErrorKind)
    ensures
        kind == kind_of_errno(error),
{
    match error {
        EPERM | EACCES => ErrorKind::PermissionDenied,
        ENOENT => ErrorKind::NotFound,
        EIO => ErrorKind::Other,
        EBADF => ErrorKind::InvalidInput,
        EAGAIN => ErrorKind::WouldBlock,
        ENOMEM => ErrorKind::OutOfMemory,
        EEXIST => ErrorKind::AlreadyExists,
        EINVAL => ErrorKind::InvalidInput,
        ENOSYS => ErrorKind::Unsupported,
        ETIMEDOUT => ErrorKind::TimedOut,
        _ => ErrorKind::Uncategorized,
    }
}

/// The description of an Open Kernel error number, as an owned string.
pub fn error_string(error: i32) -> (text: String)
    ensures
        text@ == errno_message(error)@,
{
    let message: &str = match error {
        EPERM => "operation not permitted",
        ENOENT => "no such file or directory",
        EIO => "I/O error",
        EBADF => "bad file descriptor",
        EAGAIN => "operation would block",
        ENOMEM => "out of memory",
        EACCES => "permission denied",
        EEXIST => "file already exists",
        EINVAL => "invalid argument",
        ENOSYS => "function not implemented",
        ETIMEDOUT => "operation timed out",
        _ => "unknown Open Kernel error",
    };
    message.to_owned()
}

/// An I/O error as the platform layer produces it.
#[derive(PartialEq, Eq, Structural, Clone, Copy, Debug)]
pub enum IoError {
    /// The operation is not available on this platform.
    UnsupportedPlatform,
    /// An error of the given category, with no error number.
    Simple(ErrorKind),
    /// A raw Open Kernel error number.
    Os(i32),
}

impl IoError {
    /// The category of this error.
    pub open spec fn kind_of(self) -> ErrorKind {
        match self {
            IoError::UnsupportedPlatform => ErrorKind::Unsupported,
            IoError::Simple(kind) => kind,
            IoError::Os(code) => kind_of_errno(code),
        }
    }

    /// The category of this error.
    pub fn kind(&self) -> (kind: ErrorKind)
        ensures
            kind == self.kind_of(),
    {
        match self {
            IoError::UnsupportedPlatform => ErrorKind::Unsupported,
            IoError::Simple(kind) => *kind,
            IoError::Os(code) => decode_error_kind(*code),
        }
    }

    /// The Open Kernel error number this error carries, if any.
    pub open spec fn os_code_of(self) -> Option<i32> {
        match self {
            IoError::Os(code) => Some(code),
            _ => None,
        }
    }

    /// The text that describes this error, where it has one of its own: the
    /// platform message for an unsupported operation, the error number's
    /// description for a raw OS error; an error of a bare category has none
    /// beyond its category.
    pub open spec fn message_of(self) -> Option<&'static str> {
        match self {
            IoError::UnsupportedPlatform => Some("operation not supported on this platform"),
            IoError::Simple(_) => None,
            IoError::Os(code) => Some(errno_message(code)),
        }
    }

    /// The Open Kernel error number this error carries, if any.
    pub fn raw_os_error(&self) -> (code: Option<i32>)
        ensures
            code == self.os_code_of(),
    {
        match self {
            IoError::Os(code) => Some(*code),
            _ => None,
        }
    }

    /// The text that describes this error, where it has one of its own.
    pub fn message(&self) -> (text: Option<String>)
        ensures
            match text {
                None => self.message_of() is None,
                Some(t) => self.message_of() matches Some(m) && t@ == m@,
            },
    {
        match self {
            IoError::UnsupportedPlatform => Some("operation not supported on this platform".to_owned()),
            IoError::Simple(_) => None,
            IoError::Os(code) => Some(error_string(*code)),
        }
    }
}

/// The category of every error number: the known Open Kernel error numbers map
/// to their categories, and every other number is uncategorized.
pub proof fn law_errno_categories(code: i32)
    ensures
        kind_of_errno(1) == ErrorKind::PermissionDenied,
        kind_of_errno(2) == ErrorKind::NotFound,
        kind_of_errno(5) == ErrorKind::Other,
        kind_of_errno(9) == ErrorKind::InvalidInput,
        kind_of_errno(11) == ErrorKind::WouldBlock,
        kind_of_errno(12) == ErrorKind::OutOfMemory,
        kind_of_errno(13) == ErrorKind::PermissionDenied,
        kind_of_errno(17) == ErrorKind::AlreadyExists,
        kind_of_errno(22) == ErrorKind::InvalidInput,
        kind_of_errno(38) == ErrorKind::Unsupported,
        kind_of_errno(110) == ErrorKind::TimedOut,
        code != 1 && code != 2 && code != 5 && code != 9 && code != 11 && code != 12 && code != 13
            && code != 17 && code != 22 && code != 38 && code != 110 ==> kind_of_errno(code)
            == ErrorKind::Uncategorized,
{
}

/// The category of an I/O error: a raw OS error has exactly the category that
/// `decode_error_kind` gives its number, an unsupported operation is
/// `Unsupported`, and an error of a bare category has that category. So a raw
/// `EAGAIN` is `WouldBlock`.
pub proof fn law_io_error_kind(code: i32, kind: ErrorKind)
    ensures
        IoError::Os(code).kind_of() == kind_of_errno(code),
        IoError::Os(EAGAIN).kind_of() == ErrorKind::WouldBlock,
        IoError::Simple(kind).kind_of() == kind,
        IoError::UnsupportedPlatform.kind_of() == ErrorKind::Unsupported,
        IoError::Os(code).os_code_of() == Some(code),
        IoError::Os(code).message_of() == Some(errno_message(code)),
{
}

/// The description of every error number: each known Open Kernel error number
/// has its own text, and every other number reads as an unknown error.
pub proof fn law_errno_messages(code: i32)
    ensures
        errno_message(1)@ == "operation not permitted"@,
        errno_message(2)@ == "no such file or directory"@,
        errno_message(5)@ == "I/O error"@,
        errno_message(9)@ == "bad file descriptor"@,
        errno_message(11)@ == "operation would block"@,
        errno_message(12)@ == "out of memory"@,
        errno_message(13)@ == "permission denied"@,
        errno_message(17)@ == "file already exists"@,
        errno_message(22)@ == "invalid argument"@,
        errno_message(38)@ == "function not implemented"@,
        errno_message(110)@ == "operation timed out"@,
        code != 1 && code != 2 && code != 5 && code != 9 && code != 11 && code != 12 && code != 13
            && code != 17 && code != 22 && code != 38 && code != 110 ==> errno_message(code)@
            == "unknown Open Kernel error"@,
{
}

} // verus!
