//! The die: a source of rolls between 1 and 6.

use crate::player::DIE_MAX;
use rand::rngs::ThreadRng;
use rand::Rng;
use vstd::prelude::*;

verus! {

/// The smallest value that a die shows.
pub const DIE_MIN: usize = 1;

/// The random number generator of the `rand` crate that is local to a
/// thread. Nothing of its state is visible here.
#[verifier::external_type_specification]
#[verifier::external_body]
pub struct ExThreadRng(ThreadRng);

/// `rand::thread_rng` hands out the generator of the calling thread. Nothing
/// is claimed of it.
pub assume_specification[ rand::thread_rng ]() -> (rng: ThreadRng);

/// Draws a number between `low` and `high`, both included, with
/// `Rng::gen_range`. Trusted: whatever is drawn lies in that range. The call
/// panics on an empty range, which `low <= high` rules out.
#[verifier::external_body]
fn gen_range(rng: &mut ThreadRng, low: usize, high: usize) -> (value: usize)
    requires
        low <= high,
    ensures
        low <= value <= high,
{
    rng.gen_range(low..=high)
}

/// A six-sided die.
pub struct Dice {
    rng: ThreadRng,
}

impl Dice {
    /// A die that draws from the generator of the calling thread.
    pub fn new() -> (dice: Self) {
        Self { rng: rand::thread_rng() }
    }

    /// Rolls the die. Every roll is a value that a grid slot may hold.
    pub fn roll(&mut self) -> (value: usize)
        ensures
            DIE_MIN <= value <= DIE_MAX,
    {
        gen_range(&mut self.rng, DIE_MIN, DIE_MAX)
    }
}

} // verus!
