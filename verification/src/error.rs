use vstd::prelude::*;

verus! {

/// Errors surfaced by the counter engine.
///
/// All of them are evaluation-logic errors reported to the caller;
/// none is a transient failure and none is retried.
#[derive(Debug, Clone, PartialEq)]
pub enum CounterError {
    /// A functional update produced a value that does not fit the
    /// non-negative integer-list shape of a counter state.
    TypeMismatch,
    /// A location-dependent query ran outside a deferred scope, that is,
    /// before the document's positions were settled for this pass.
    ContextViolation,
    /// The public counter handle has no method of the given name.
    UnknownMethod(String),
    /// A required argument of a counter method was not given.
    MissingArgument(String),
}

} // verus!
