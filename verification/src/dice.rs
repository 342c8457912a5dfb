//! The source of chance: where a new head or a new food lands.

use vstd::prelude::*;
use rand::rngs::StdRng;
use rand::Rng;
use rand::SeedableRng;

verus! {

/// `StdRng` of `rand`, held and handed on; nothing is known of its inside.
#[verifier::external_type_specification]
#[verifier::external_body]
pub struct ExStdRng(StdRng);

/// A generator of draws that is made from a seed.
pub struct Dice {
    rng: StdRng,
}

/// `SeedableRng::seed_from_u64` of `rand`, for its `StdRng`. Nothing is
/// claimed of the generator that comes back.
#[verifier::external_body]
fn generator(seed: u64) -> StdRng {
    StdRng::seed_from_u64(seed)
}

/// `Rng::gen_range` of `rand` on the half-open range `0..bound`. It panics
/// on an empty range, so `bound` is positive; what it returns lies in the
/// range. That the draws are uniform is not stated.
#[verifier::external_body]
fn draw(rng: &mut StdRng, bound: u32) -> (drawn: u32)
    requires
        bound > 0,
    ensures
        drawn < bound,
{
    rng.gen_range(0..bound)
}

impl Dice {
    /// Dice made from a seed. `rand` makes the same generator from the same
    /// seed, so that a game can be played again draw by draw; no contract
    /// here says so, and none could say which draws they are.
    pub fn seeded(seed: u64) -> Dice {
        Dice { rng: generator(seed) }
    }

    /// A draw from `0..bound`, which must not be empty.
    pub fn below(&mut self, bound: u32) -> (drawn: u32)
        requires
            bound > 0,
        ensures
            drawn < bound,
    {
        draw(&mut self.rng, bound)
    }
}

} // verus!
