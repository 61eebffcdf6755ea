use lib::futex::{
    futex_timeout_ms, futex_wait_call, futex_wait_reply, futex_wake_all_call, futex_wake_call,
    futex_wake_reply, FUTEX_WAIT, FUTEX_WAKE, NO_TIMEOUT, TIMED_OUT_REPLY,
};

#[test]
fn timeout_conversion() {
    assert_eq!(futex_timeout_ms(None), u64::MAX);
    assert_eq!(futex_timeout_ms(Some(0)), 0);
    assert_eq!(futex_timeout_ms(Some(1500)), 1500);
    assert_eq!(futex_timeout_ms(Some(u64::MAX as u128)), u64::MAX);
    assert_eq!(futex_timeout_ms(Some(u64::MAX as u128 + 1)), NO_TIMEOUT);
}

#[test]
fn wait_call_arguments() {
    assert_eq!(futex_wait_call(0x1000, 7, Some(25)), (FUTEX_WAIT, 0x1000, 7, 25));
    assert_eq!(futex_wait_call(0x2000, u32::MAX, None), (28, 0x2000, u32::MAX as u64, u64::MAX));
}

#[test]
fn wait_reply() {
    assert!(futex_wait_reply(0));
    assert!(futex_wait_reply(-11i64 as u64));
    assert!(futex_wait_reply(u64::MAX));
    assert!(!futex_wait_reply(-110i64 as u64));
    assert!(!futex_wait_reply(TIMED_OUT_REPLY));
}

#[test]
fn wake_calls() {
    assert_eq!(futex_wake_call(0x10), (FUTEX_WAKE, 0x10, 1, 0));
    assert_eq!(futex_wake_all_call(0x10), (29, 0x10, u64::MAX, 0));
    assert!(futex_wake_reply(1));
    assert!(futex_wake_reply(3));
    assert!(!futex_wake_reply(0));
    assert!(!futex_wake_reply(-5i64 as u64));
    assert!(!futex_wake_reply(u64::MAX));
}
