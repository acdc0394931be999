use vstd::prelude::*;

verus! {

/// Failure of a native windowing call (set or query of the click-through
/// style, window placement, cursor-position query). Always recoverable: the
/// caller is told, the in-memory state keeps the recorded intent, and a retry
/// is safe. The per-OS adapter in the shell constructs these; the core only
/// routes them.
#[derive(Clone, Copy, PartialEq, Eq, Structural, Debug)]
pub enum PlatformError {
    /// The window handle could not be obtained or is no longer valid.
    InvalidHandle,
    /// The operating system refused the call for lack of permission.
    PermissionDenied,
    /// The platform offers no primitive for the requested operation.
    Unsupported,
    /// The native call itself reported failure.
    CallFailed,
}

impl PlatformError {
    /// Short description for log lines; the shell formats richer messages.
    pub fn message(&self) -> (s: &'static str)
        ensures
            *self is InvalidHandle ==> s@ == "window handle unavailable"@,
            *self is PermissionDenied ==> s@ == "permission denied"@,
            *self is Unsupported ==> s@ == "unsupported on this platform"@,
            *self is CallFailed ==> s@ == "native call failed"@,
    {
        match self {
            PlatformError::InvalidHandle => "window handle unavailable",
            PlatformError::PermissionDenied => "permission denied",
            PlatformError::Unsupported => "unsupported on this platform",
            PlatformError::CallFailed => "native call failed",
        }
    }
}

} // verus!
