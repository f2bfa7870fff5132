//! Practice routines kept alongside the optimisation core.

use vstd::prelude::*;

use crate::errors::AnnealError;

verus! {

/// Practice routine nine: a reserved slot that performs no work and always
/// succeeds.
pub fn practica9() -> (r: Result<(), AnnealError>)
    ensures
        r is Ok,
{
    Ok(())
}

} // verus!
