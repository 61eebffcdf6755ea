//! Platform layer logic for Open Kernel userspace on x86_64.
pub mod env;
pub mod heap;
pub mod io_error;
pub mod stdio;
pub mod args;
pub mod futex;
pub mod pal;
pub mod target;
