//! Failure modes of the optimisation core.

use vstd::prelude::*;

verus! {

/// Everything the core can refuse to do, and why.
#[derive(Clone, Copy, Debug, PartialEq, Eq, Structural)]
pub enum AnnealError {
    /// A minimum that is not below its maximum, or a value outside its stated
    /// bounds, handed to a constructor.
    InvalidBounds,
    /// A satisfaction weight of zero where the objective function divides by
    /// that weight.
    InvalidWeight,
    /// Priorities of a multi-parameter environment that do not sum to one
    /// within the accepted tolerance.
    PriorityMismatch,
}

} // verus!
