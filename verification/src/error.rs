//! Errors raised when a value does not conform to its ABNF definition.

use vstd::prelude::*;

verus! {

/// The reason why a value was rejected.
#[derive(Clone, Copy, Debug, PartialEq, Eq, Hash, Structural)]
pub enum ValidationErrorKind {
    /// The value must not be empty.
    Empty,
    /// The value must have at least `min` elements.
    NotEnough { min: usize },
    /// The value is invalid.
    Invalid,
    /// The byte `byte` at index `at` is not allowed.
    InvalidByteAt { byte: u8, at: usize },
}

/// A value did not pass validation.
#[derive(Clone, Copy, Debug, PartialEq, Eq, Hash, Structural)]
pub struct ValidationError {
    pub kind: ValidationErrorKind,
}

impl ValidationError {
    /// The error of the given kind.
    pub open spec fn of(kind: ValidationErrorKind) -> ValidationError {
        ValidationError { kind }
    }

    /// Creates an error of the given kind.
    pub fn new(kind: ValidationErrorKind) -> (e: ValidationError)
        ensures
            e == ValidationError::of(kind),
    {
        ValidationError { kind }
    }

    /// The reason of this error.
    pub fn kind(&self) -> (k: ValidationErrorKind)
        ensures
            k == self.kind,
    {
        self.kind
    }
}

} // verus!
