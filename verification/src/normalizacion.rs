//! Normalisation of a target level against its feasible range.

use vstd::prelude::*;

use crate::fixed::{mul_div, sdiv, SCALE, VAL_LIMIT};

verus! {

/// Where the objective level `eo` sits between the least and the greatest
/// spend, as a fixed-point fraction of the range: zero at `emin`, one unit
/// at `emax`.
pub fn normalizacion(eo: i64, emin: i64, emax: i64) -> (r: i64)
    requires
        -VAL_LIMIT <= emin < emax <= VAL_LIMIT,
        -VAL_LIMIT <= eo <= VAL_LIMIT,
    ensures
        r == sdiv((eo - emin) * SCALE, emax - emin),
{
    proof {
        crate::fixed::lemma_abs_mul_bound(
            eo as int - emin as int,
            SCALE as int,
            2 * VAL_LIMIT,
            SCALE as int,
        );
        crate::fixed::lemma_sdiv_bounds((eo as int - emin as int) * SCALE, emax as int - emin as int);
    }
    mul_div(eo - emin, SCALE, emax - emin)
}

} // verus!
