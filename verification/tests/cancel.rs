//! The cancellation signal.

use wasi_runtime::cancel::CancelHandle;

#[test]
fn fresh_handle_is_not_cancelled() {
    let handle = CancelHandle::new();
    assert!(!handle.is_cancelled());
    assert!(!CancelHandle::default().is_cancelled());
}

#[test]
fn cancel_flips_the_flag_and_is_idempotent() {
    let handle = CancelHandle::new();
    handle.cancel();
    assert!(handle.is_cancelled());
    handle.cancel();
    assert!(handle.is_cancelled());
}

#[test]
fn cloned_handles_share_the_signal() {
    let handle = CancelHandle::new();
    let clone = handle.clone();
    handle.cancel();
    assert!(clone.is_cancelled());
}
