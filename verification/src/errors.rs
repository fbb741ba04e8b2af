//! Error taxonomy of the library: both variants mark fatal caller errors,
//! never recoverable runtime conditions.

use vstd::prelude::*;

verus! {

/// A fatal precondition violation.
#[derive(Clone, Copy, Debug, PartialEq, Eq, Structural)]
pub enum EcoError {
    /// Operand, genome or template lengths/dimensions disagree.
    ShapeMismatch,
    /// The population/deme-size invariant is violated at construction.
    InvalidConfiguration,
}

} // verus!
