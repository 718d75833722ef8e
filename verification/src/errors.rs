//! Error types shared by the model layer and its callers.

use vstd::prelude::*;

verus! {

/// Errors raised while validating or converting recurrence data.
#[derive(Debug, Clone, PartialEq, Eq)]
pub enum MoolahSharedError {
    /// A stored delta could not be converted into its in-memory form.
    DeltaConversionError(&'static str),
    /// A repetition rule field was out of range or unrecognized.
    RepetitionError(&'static str),
}

/// Errors raised by request-path helpers on the client side.
#[derive(Debug, Clone, PartialEq, Eq)]
pub enum MoolahFrontendError {
    /// The base or relative part of a path was empty.
    JoinPathError,
    /// The current window could not be obtained.
    WebSysError,
    /// A replacement pattern failed to compile, with the compiler's message.
    RegexError(String),
    /// Local or session web storage failed, with the storage message.
    StorageError(String),
}

/// Errors reported to the user when a server response is unusable.
#[derive(Debug, Clone, PartialEq, Eq)]
pub enum InternalResponseError {
    Unauthorized,
    UniqueConstraintViolation(&'static str, String),
    ResponseAwaitError(&'static str, String),
    Other(String),
}

} // verus!
