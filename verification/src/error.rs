//! The typed failures of the library.

use vstd::prelude::*;

verus! {

/// A malformed input to trace or constraint-definition construction.
#[derive(Clone, Copy, Debug, PartialEq, Eq, Structural)]
pub enum ConfigurationError {
    /// The two sample sequences differ in length.
    SampleLengthMismatch,
    /// The trace does not have exactly four columns.
    WrongTraceWidth,
    /// The columns differ in length, or their length is not a power of two
    /// of at least eight steps.
    InvalidTraceLength,
}

/// A trace that does not satisfy a constraint definition.
#[derive(Clone, Copy, Debug, PartialEq, Eq, Structural)]
pub enum ConstraintViolation {
    /// The boundary assertion at `index`, in the order of the constraint
    /// definition, names no cell of the trace or another value than the
    /// cell holds.
    Assertion { index: usize },
    /// The transition constraint `constraint` is not zero between the rows
    /// at `step` and `step + 1`.
    Transition { constraint: usize, step: usize },
}

/// Inference read another record off a trace than the one that the trace
/// was built from.
#[derive(Clone, Copy, Debug, PartialEq, Eq, Structural)]
pub struct InferenceMismatch;

} // verus!
