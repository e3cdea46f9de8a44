//! Error taxonomy.
//!
//! `FoldingError` covers the configuration errors of the folding scheme:
//! malformed shapes and unknown selectors are fatal to the call that exposed
//! them and are never silently coerced.  The snarky error enums describe the
//! failures a circuit front end reports, split into compilation-time and
//! proving-time classes.

use vstd::prelude::*;

verus! {

/// A configuration error of the folding scheme: the shapes of the inputs do
/// not fit the scheme, or a constraint is outside what folding can carry.
#[derive(Clone, Copy, Debug, PartialEq, Eq, Structural)]
pub enum FoldingError {
    /// Two witnesses with different row counts, or tables of uneven length.
    MismatchedRows,
    /// Commitment, challenge or combination-power sequences of uneven length.
    MismatchedShape,
    /// A selector index outside the configured selector set.
    UnknownSelector,
    /// A constraint whose degree the cross-term computation cannot carry.
    DegreeTooHigh,
    /// A constraint naming a column or challenge outside the configured shape.
    UnmappedAtom,
    /// A constraint using an atom that only the builder may introduce.
    ReservedAtom,
}

/// A snarky error: either a compilation error or a runtime error.
#[derive(Debug, Clone)]
pub enum SnarkyError {
    CompilationError(SnarkyCompilationError),
    RuntimeError(SnarkyRuntimeError),
}

/// Errors that can occur during compilation of a circuit.
#[derive(Debug, Clone)]
pub enum SnarkyCompilationError {
    ToDelete(String),
}

/// Errors that can occur during runtime (proving).
#[derive(Debug, Clone)]
pub enum SnarkyRuntimeError {
    /// An unsatisfied generic constraint, with the printed coefficients and
    /// cell values of the row that violated it.
    UnsatisfiedGenericConstraint(String, String, String, String, String, String, String, String),
    /// A value that should have been boolean, printed.
    UnsatisfiedBooleanConstraint(String),
    /// Two values that should have been equal, printed.
    UnsatisfiedEqualConstraint(String, String),
    /// A value whose square should have equalled another, both printed.
    UnsatisfiedSquareConstraint(String, String),
    /// Three values that should have satisfied a product relation, printed.
    UnsatisfiedR1CSConstraint(String, String, String),
}

/// A result type for snarky errors.
pub type SnarkyResult<T> = Result<T, SnarkyError>;

/// A result type for snarky runtime errors.
pub type SnarkyRuntimeResult<T> = Result<T, SnarkyRuntimeError>;

/// A result type for snarky compilation errors.
pub type SnarkyCompileResult<T> = Result<T, SnarkyCompilationError>;

} // verus!
