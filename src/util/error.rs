use vstd::prelude::*;

verus! {

/// Failures that the library reports to its callers.
#[derive(Debug, Clone, Copy, PartialEq, Eq, Structural)]
pub enum Error {
    /// A failure that carries no further detail.
    Any,
    /// The shapes of the operands do not fit the operation.
    ShapeMismatch,
}

impl Error {
    pub fn new() -> (r: Self)
        ensures
            r == Error::Any,
    {
        Error::Any
    }
}

impl Default for Error {
    fn default() -> (r: Self)
        ensures
            r == Error::Any,
    {
        Error::Any
    }
}

} // verus!
