//! Open Kernel platform abstraction layer: what the platform does not offer.
use vstd::prelude::*;
use crate::io_error::{ErrorKind, IoError};

verus! {

/// The error for an operation that Open Kernel does not support.
pub fn unsupported_err() -> (error: IoError)
    ensures
        error == IoError::UnsupportedPlatform,
        error.kind_of() == ErrorKind::Unsupported,
        error.os_code_of() is None,
        error.message_of() == Some("operation not supported on this platform"),
{
    IoError::UnsupportedPlatform
}

/// Fails an operation that Open Kernel does not support.
pub fn unsupported<T>() -> (result: Result<T, IoError>)
    ensures
        result == Err::<T, IoError>(IoError::UnsupportedPlatform),
{
    Err(unsupported_err())
}

} // verus!
