use vstd::prelude::*;

use rand::rngs::StdRng;

verus! {

/// A source of random indices.
pub trait RandomSource {
    /// Whether drawing an index below `length` may give `index` and leave the source as
    /// `after`.
    spec fn draws(&self, after: &Self, length: usize, index: usize) -> bool;

    /// An index below `length`, drawn from the source.
    fn index(&mut self, length: usize) -> (r: usize)
        requires
            length > 0,
        ensures
            r < length,
            old(self).draws(final(self), length, r),
    ;
}

#[verifier::external_type_specification]
#[verifier::external_body]
pub struct ExStdRng(StdRng);

/// Calls `rand::SeedableRng::seed_from_u64` for `StdRng`. Nothing is claimed of the
/// generator's state.
#[verifier::external_body]
fn std_rng_from_seed(seed: u64) -> StdRng {
    <StdRng as rand::SeedableRng>::seed_from_u64(seed)
}

/// Calls `rand::RngExt::random_range(0..length)`, which the rand documentation says
/// yields a value of the half-open range and panics only when the range is empty.
#[verifier::external_body]
fn std_rng_below(rng: &mut StdRng, length: usize) -> (r: usize)
    requires
        length > 0,
    ensures
        r < length,
{
    rand::RngExt::random_range(rng, 0..length)
}

/// Random indices from a seeded standard generator.
pub struct RandRandomSource {
    rng: StdRng,
}

impl RandRandomSource {
    pub fn new(seed: u64) -> Self {
        Self { rng: std_rng_from_seed(seed) }
    }
}

impl RandomSource for RandRandomSource {
    /// The generator may give any index below the length.
    open spec fn draws(&self, after: &Self, length: usize, index: usize) -> bool {
        index < length
    }

    fn index(&mut self, length: usize) -> (r: usize) {
        std_rng_below(&mut self.rng, length)
    }
}

} // verus!
