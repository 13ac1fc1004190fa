//! Errors of the runtime.
use vstd::prelude::*;

verus! {

/// What can go wrong in the runtime.
#[derive(Clone, Copy, Debug, PartialEq, Eq, Structural)]
pub enum RuntimeError {
    NotInitialized,
    ThreadNotBound,
    InvalidThread,
    InvalidObjectKind,
    IndexOutOfBounds,
    InvalidArgument,
    NullSlot,
    ShadowStackUnderflow,
    AllocationFailed,
    FixnumOutOfRange,
    WorkerThreadPanicked,
    InvalidTrampolineState,
}

/// The text in which an error is shown.
pub open spec fn runtime_error_text(error: RuntimeError) -> Seq<char> {
    match error {
        RuntimeError::NotInitialized => "runtime is not initialized"@,
        RuntimeError::ThreadNotBound => "current thread is not bound to the runtime"@,
        RuntimeError::InvalidThread => "invalid runtime thread handle"@,
        RuntimeError::InvalidObjectKind => "invalid object kind"@,
        RuntimeError::IndexOutOfBounds => "index out of bounds"@,
        RuntimeError::InvalidArgument => "invalid runtime argument"@,
        RuntimeError::NullSlot => "slot pointer must not be null"@,
        RuntimeError::ShadowStackUnderflow => "shadow stack underflow"@,
        RuntimeError::AllocationFailed => "allocation failed"@,
        RuntimeError::FixnumOutOfRange => "fixnum does not fit in tagged representation"@,
        RuntimeError::WorkerThreadPanicked => "worker thread panicked"@,
        RuntimeError::InvalidTrampolineState => "invalid trampoline state"@,
    }
}

impl RuntimeError {
    /// What any error of input or output comes to.
    pub fn io_like<E>(_error: E) -> (error: Self)
        ensures
            error == RuntimeError::InvalidArgument,
    {
        RuntimeError::InvalidArgument
    }

    /// The text in which the error is shown.
    pub fn text(&self) -> (text: String)
        ensures
            text@ == runtime_error_text(*self),
    {
        match self {
            RuntimeError::NotInitialized => "runtime is not initialized".to_owned(),
            RuntimeError::ThreadNotBound => "current thread is not bound to the runtime".to_owned(),
            RuntimeError::InvalidThread => "invalid runtime thread handle".to_owned(),
            RuntimeError::InvalidObjectKind => "invalid object kind".to_owned(),
            RuntimeError::IndexOutOfBounds => "index out of bounds".to_owned(),
            RuntimeError::InvalidArgument => "invalid runtime argument".to_owned(),
            RuntimeError::NullSlot => "slot pointer must not be null".to_owned(),
            RuntimeError::ShadowStackUnderflow => "shadow stack underflow".to_owned(),
            RuntimeError::AllocationFailed => "allocation failed".to_owned(),
            RuntimeError::FixnumOutOfRange => "fixnum does not fit in tagged representation".to_owned(),
            RuntimeError::WorkerThreadPanicked => "worker thread panicked".to_owned(),
            RuntimeError::InvalidTrampolineState => "invalid trampoline state".to_owned(),
        }
    }
}

} // verus!
