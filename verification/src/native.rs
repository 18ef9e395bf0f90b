//! Native terminal boundary.
//!
//! This module intentionally does not spawn a process. Native requests have a
//! named backend that returns `unsupported` rather than silently executing with
//! ambient authority.

use vstd::prelude::*;

use crate::command::{CommandRequest, ExecutionMode, RequestView};

verus! {

/// Native execution backend selected by policy.
#[derive(Debug)]
pub struct NativeBackend;

/// Why the native backend refuses a request.
pub open spec fn native_refusal(request: RequestView) -> NativeError {
    if request.mode != ExecutionMode::Native {
        NativeError::WrongMode
    } else if !request.grant.native_execution {
        NativeError::NativeNotGranted
    } else {
        NativeError::UnsupportedOnHost
    }
}

impl NativeBackend {
    /// Create the host-native backend boundary.
    pub fn new() -> (backend: Self)
        ensures
            backend == NativeBackend,
    {
        NativeBackend
    }

    /// Start a native request when a platform adapter is available.
    ///
    /// No host has one: a request is refused whatever it asks for.
    pub fn start(&self, request: &CommandRequest) -> (started: Result<(), NativeError>)
        ensures
            started == Err::<(), NativeError>(native_refusal(request@)),
    {
        if request.mode != ExecutionMode::Native {
            return Err(NativeError::WrongMode);
        }
        if !request.grant.allows_native_execution() {
            return Err(NativeError::NativeNotGranted);
        }
        Err(NativeError::UnsupportedOnHost)
    }
}

impl Default for NativeBackend {
    fn default() -> (backend: Self)
        ensures
            backend == NativeBackend,
    {
        NativeBackend
    }
}

/// Fail-closed errors from the native backend boundary.
#[derive(Clone, Copy, Debug, PartialEq, Eq, Structural)]
pub enum NativeError {
    /// The request selected a different backend.
    WrongMode,
    /// Native execution was not granted.
    NativeNotGranted,
    /// No tested platform sandbox adapter is available yet.
    UnsupportedOnHost,
}

impl NativeError {
    /// The text shown for the error.
    pub open spec fn text(self) -> Seq<char> {
        match self {
            NativeError::WrongMode => "native backend received a non-native request"@,
            NativeError::NativeNotGranted => "native execution was not granted"@,
            NativeError::UnsupportedOnHost => "native execution is unsupported on this host"@,
        }
    }

    /// The text shown for the error.
    pub fn message(&self) -> (text: String)
        ensures
            text@ == self.text(),
    {
        match self {
            NativeError::WrongMode => "native backend received a non-native request".to_owned(),
            NativeError::NativeNotGranted => "native execution was not granted".to_owned(),
            NativeError::UnsupportedOnHost =>
                "native execution is unsupported on this host".to_owned(),
        }
    }
}

/// Whatever is asked of the native backend, it is refused for a reason of the request itself: for
/// its mode if that is another one, for its grant if native execution is not in it, and otherwise
/// for want of a sandbox on this host. Who asks and for what does not matter.
pub proof fn law_native_requests_are_refused_by_mode_and_grant(one: RequestView, other: RequestView)
    ensures
        one.mode == ExecutionMode::Wasi <==> native_refusal(one) == NativeError::WrongMode,
        one.mode == ExecutionMode::Native && !one.grant.native_execution <==> native_refusal(one)
            == NativeError::NativeNotGranted,
        one.mode == ExecutionMode::Native && one.grant.native_execution <==> native_refusal(one)
            == NativeError::UnsupportedOnHost,
        one.mode == other.mode && one.grant.native_execution == other.grant.native_execution
            ==> native_refusal(one) == native_refusal(other),
{
}

} // verus!
