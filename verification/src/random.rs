//! The source of the random draws that pick a fallback direction.

use vstd::prelude::*;
use rand::rngs::SmallRng;

verus! {

/// `rand::rngs::SmallRng`, a generator that the library hands on and never
/// looks into.
#[verifier::external_type_specification]
#[verifier::external_body]
pub struct ExSmallRng(SmallRng);

/// Calls `rand::SeedableRng::seed_from_u64` for `SmallRng`.
/// Nothing is claimed of the generator that comes back.
#[verifier::external_body]
pub(crate) fn seeded_generator(seed: u64) -> SmallRng {
    rand::SeedableRng::seed_from_u64(seed)
}

/// Calls `rand::Rng::random_range` on the range from zero up to, and not
/// including, `bound`. The call panics on an empty range, which the
/// precondition excludes; the draw lies within the range.
#[verifier::external_body]
pub(crate) fn draw_below(generator: &mut SmallRng, bound: u32) -> (draw: u32)
    requires
        bound > 0,
    ensures
        draw < bound,
{
    rand::Rng::random_range(generator, 0..bound)
}

} // verus!
