use vstd::prelude::*;

verus! {

/// Errors reported by streaming contexts and counter-mode cipher operations.
#[derive(Debug, Clone, Copy, PartialEq, Eq, Structural)]
pub enum UnknownCryptoError {
    /// The operation is not valid in the context's current lifecycle state
    /// (a second `finalize`, or `update` after `finalize`, without `reset`).
    StateError,
    /// A structural precondition is violated (wrong output buffer length,
    /// empty input, or a block counter that would overflow).
    ValidationError,
}

} // verus!
