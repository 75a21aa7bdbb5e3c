//! Seeded coin flips for the map generator, drawn through the `rand` crate.
//!
//! The generator itself is a pure function of the flips it is handed; only
//! this module touches the random source, so a run can be reproduced by
//! seeding with the same value.

use vstd::prelude::*;

verus! {

#[verifier::external_type_specification]
#[verifier::external_body]
pub struct ExStdRng(rand::rngs::StdRng);

/// Relies on rand's `StdRng::seed_from_u64` (via `SeedableRng`): builds a
/// generator from a word-sized seed.  Nothing is promised of the state it
/// returns.
#[verifier::external_body]
fn seed_rng(seed: u64) -> rand::rngs::StdRng {
    <rand::rngs::StdRng as rand::SeedableRng>::seed_from_u64(seed)
}

/// Relies on rand's `Rng::gen::<bool>`: draws one boolean from the most
/// significant bit of the generator's next word and advances the generator.
/// Nothing is promised of the value.
#[verifier::external_body]
fn next_bool(rng: &mut rand::rngs::StdRng) -> bool {
    rand::Rng::gen::<bool>(rng)
}

/// Draws `n` coin flips from a generator seeded with `seed`.  Each flip may
/// come out either way; only the count is fixed.
pub fn coin_flips(seed: u64, n: u32) -> (flips: Vec<bool>)
    ensures
        flips@.len() == n,
{
    let mut rng = seed_rng(seed);
    let mut flips: Vec<bool> = Vec::new();
    let mut i: u32 = 0;
    while i < n
        invariant
            flips@.len() == i,
            i <= n,
        decreases n - i,
    {
        let b = next_bool(&mut rng);
        flips.push(b);
        i = i + 1;
    }
    flips
}

} // verus!
