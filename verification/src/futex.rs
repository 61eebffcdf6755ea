//! Open Kernel futex syscalls: the arguments they take and what their replies mean.
use vstd::prelude::*;

verus! {

/// The futex wait syscall number.
pub const FUTEX_WAIT: u64 = 28;

/// The futex wake syscall number.
pub const FUTEX_WAKE: u64 = 29;

/// The timeout argument that means "wait without a time limit".
pub const NO_TIMEOUT: u64 = 0xffff_ffff_ffff_ffff;

/// The reply of a wait whose time limit elapsed: `-ETIMEDOUT` as a 64-bit value.
pub const TIMED_OUT_REPLY: u64 = 0xffff_ffff_ffff_ff92;

/// The timeout argument for a wait of `timeout_millis` milliseconds (`None`: no limit).
pub open spec fn timeout_arg(timeout_millis: Option<u128>) -> u64 {
    match timeout_millis {
        Some(ms) => if ms <= u64::MAX { ms as u64 } else { NO_TIMEOUT },
        None => NO_TIMEOUT,
    }
}

/// The timeout argument for a wait of `timeout_millis` milliseconds: a duration
/// too long for the argument, like no duration, means no time limit.
pub fn futex_timeout_ms(timeout_millis: Option<u128>) -> (timeout: u64)
    ensures
        timeout == timeout_arg(timeout_millis),
{
    match timeout_millis {
        Some(ms) => if ms <= 0xffff_ffff_ffff_ffffu128 {
            ms as u64
        } else {
            NO_TIMEOUT
        },
        None => NO_TIMEOUT,
    }
}

/// The syscall number and arguments of a wait on the futex at `address` while it holds `expected`.
pub fn futex_wait_call(address: u64, expected: u32, timeout_millis: Option<u128>) -> (call: (u64, u64, u64, u64))
    ensures
        call == (FUTEX_WAIT, address, expected as u64, timeout_arg(timeout_millis)),
{
    (FUTEX_WAIT, address, expected as u64, futex_timeout_ms(timeout_millis))
}

/// Whether a wait ended other than by its time limit, from the kernel's reply:
/// only `-ETIMEDOUT` means the time ran out. A reply that the value had already
/// changed (`-EAGAIN`) counts as a wake.
pub fn futex_wait_reply(reply: u64) -> (woken: bool)
    ensures
        woken == (reply != TIMED_OUT_REPLY),
        woken == ((reply as i64) != -110),
{
    assert((reply as i64) == -110 <==> reply == 0xffff_ffff_ffff_ff92u64) by (bit_vector);
    reply != TIMED_OUT_REPLY
}

/// The syscall number and arguments that wake one waiter on the futex at `address`.
pub fn futex_wake_call(address: u64) -> (call: (u64, u64, u64, u64))
    ensures
        call == (FUTEX_WAKE, address, 1u64, 0u64),
{
    (FUTEX_WAKE, address, 1, 0)
}

/// Whether a wake woke a waiter, from the kernel's reply: the number woken, or
/// a negative value (as a signed 64-bit value) for a failure.
pub fn futex_wake_reply(reply: u64) -> (woke: bool)
    ensures
        woke == (0 < reply <= i64::MAX),
        woke == ((reply as i64) > 0),
{
    assert((reply as i64) > 0 <==> (0 < reply && reply <= 0x7fff_ffff_ffff_ffffu64)) by (bit_vector);
    0 < reply && reply <= i64::MAX as u64
}

/// The syscall number and arguments that wake every waiter on the futex at `address`.
pub fn futex_wake_all_call(address: u64) -> (call: (u64, u64, u64, u64))
    ensures
        call == (FUTEX_WAKE, address, u64::MAX, 0u64),
{
    (FUTEX_WAKE, address, u64::MAX, 0)
}

/// A wait with a time limit passes that limit in milliseconds whenever it fits
/// the 64-bit argument; only a limit too long for it, or no limit, waits
/// without a time limit.
pub proof fn law_timeout_kept_when_it_fits(ms: u128)
    ensures
        ms <= u64::MAX ==> timeout_arg(Some(ms)) as int == ms as int,
        ms > u64::MAX ==> timeout_arg(Some(ms)) == u64::MAX,
        timeout_arg(None) == u64::MAX,
        timeout_arg(Some(ms)) == NO_TIMEOUT ==> ms >= u64::MAX,
{
}

} // verus!
