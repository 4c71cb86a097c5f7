//! The source of randomness: the `WyRand` generator that `bevy_rand` keeps on
//! its global entity, and the raw 32-bit draws taken from it.

use bevy_rand::prelude::WyRand;
use rand_core::RngCore;
use vstd::prelude::*;

verus! {

/// The generator `bevy_prng::WyRand`, as `bevy_rand` hands it out. Its state
/// is hidden: a generator is only passed on to `next_u32`.
#[verifier::external_type_specification]
#[verifier::external_body]
pub struct ExWyRand(bevy_rand::prelude::WyRand);

/// Takes the next 32-bit word from the generator, by `RngCore::next_u32`.
///
/// Trusted, and nothing is claimed of the word: every `u32` may come back.
#[verifier::external_body]
pub(crate) fn next_u32(rng: &mut WyRand) -> (word: u32) {
    rng.next_u32()
}

} // verus!
