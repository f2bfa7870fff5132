//! The crate's only source of randomness: a seeded generator from the `rand`
//! crate, drawn from through one uniform-range wrapper.  Injecting the
//! generator keeps every run reproducible under a fixed seed.

use vstd::prelude::*;

verus! {

#[verifier::external_type_specification]
#[verifier::external_body]
pub struct ExStdRng(rand::rngs::StdRng);

/// Relies on rand's `SeedableRng::seed_from_u64` for `StdRng`: builds a
/// generator deterministically from a 64-bit seed; never fails.
#[verifier::external_body]
pub fn seeded_rng(seed: u64) -> rand::rngs::StdRng {
    <rand::rngs::StdRng as rand::SeedableRng>::seed_from_u64(seed)
}

/// Relies on rand's `Rng::random_range`: a draw from `lo..hi`, uniform over
/// the range and always inside it; it panics only on an empty range, which
/// the precondition rules out.  Nothing relates one draw to the next.
#[verifier::external_body]
pub(crate) fn random_in_range(rng: &mut rand::rngs::StdRng, lo: i64, hi: i64) -> (r: i64)
    requires
        lo < hi,
    ensures
        lo <= r < hi,
{
    rand::Rng::random_range(rng, lo..hi)
}

} // verus!
