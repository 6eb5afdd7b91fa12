//! Structured errors for failed module operations: the raw OS error code of
//! the failed call together with the operation that produced it.

use vstd::prelude::*;

verus! {

/// Which operation produced an error.
#[derive(Clone, Copy, Debug, PartialEq, Eq, Structural)]
pub enum ErrorContext {
    /// The load (`finit_module`) call failed.
    LoadModule,
    /// The unload (`delete_module`) call failed.
    UnloadModule,
    /// The periodic timer rate-limiting asynchronous unload attempts failed.
    RateLimitTimer,
}

/// An error from a failed privileged call: the OS error code (0 when the
/// failure carries none, as for a timer failure) and the operation it came
/// from.
#[derive(Clone, Copy, Debug, PartialEq, Eq, Structural)]
pub struct Error {
    /// The raw OS error code reported for the failed call.
    pub code: i32,
    /// The operation that failed.
    pub context: ErrorContext,
}

impl Error {
    /// Wrap an OS error code reported for the given operation.
    pub fn sys(code: i32, context: ErrorContext) -> (r: Error)
        ensures
            r == (Error { code, context }),
    {
        Error { code, context }
    }

    /// A short description of the operation that failed.
    pub fn context_message(&self) -> (r: &'static str)
        ensures
            self.context == ErrorContext::LoadModule ==> r@ == "finit_module error"@,
            self.context == ErrorContext::UnloadModule ==> r@ == "delete_module error"@,
            self.context == ErrorContext::RateLimitTimer ==> r@ == "failed rate-limiting interval"@,
    {
        match self.context {
            ErrorContext::LoadModule => "finit_module error",
            ErrorContext::UnloadModule => "delete_module error",
            ErrorContext::RateLimitTimer => "failed rate-limiting interval",
        }
    }
}
} // verus!
