//! The source of chance that the simulation draws from.

use vstd::prelude::*;
use rand::rngs::StdRng;
use rand::Rng;
use rand::SeedableRng;

verus! {

/// `rand`'s standard generator, `rand::rngs::StdRng`, carried as it is.
#[verifier::external_type_specification]
#[verifier::external_body]
pub struct ExStdRng(StdRng);

/// `rand`'s `SeedableRng::seed_from_u64` for `StdRng`: a generator whose stream is fixed by
/// the seed. Nothing is claimed of the generator.
#[verifier::external_body]
fn seed_generator(seed: u64) -> (generator: StdRng) {
    StdRng::seed_from_u64(seed)
}

/// `rand`'s `Rng::random_range` on a half-open range of `i64`: some value of the range.
/// The range must hold a value, else the call panics.
#[verifier::external_body]
fn draw_between(generator: &mut StdRng, low: i64, high: i64) -> (value: i64)
    requires
        low < high,
    ensures
        low <= value < high,
{
    generator.random_range(low..high)
}

/// `rand`'s `Rng::random_ratio`: true with a chance of `numerator` in `denominator`. The
/// call panics unless the ratio is a probability. Of the result only the two certain cases
/// are claimed: always true where the ratio is one, never true where it is zero.
#[verifier::external_body]
fn draw_ratio(generator: &mut StdRng, numerator: u32, denominator: u32) -> (hit: bool)
    requires
        denominator > 0,
        numerator <= denominator,
    ensures
        numerator == denominator ==> hit,
        numerator == 0 ==> !hit,
{
    generator.random_ratio(numerator, denominator)
}

/// A seeded generator of random numbers.
pub struct RandomSource {
    generator: StdRng,
}

impl RandomSource {
    /// A source whose draws are fixed by `seed`.
    pub fn from_seed(seed: u64) -> (source: RandomSource) {
        RandomSource { generator: seed_generator(seed) }
    }

    /// Some integer from `low` up to, but not including, `high`.
    pub fn between(&mut self, low: i64, high: i64) -> (value: i64)
        requires
            low < high,
        ensures
            low <= value < high,
    {
        draw_between(&mut self.generator, low, high)
    }

    /// Heads or tails, with one chance in two each.
    pub fn coin(&mut self) -> (heads: bool) {
        draw_ratio(&mut self.generator, 1, 2)
    }
}

} // verus!
