//! The random-number capability: a pseudo-random generator that can be
//! seeded deterministically, reseeded from the operating system, and asked
//! for a fresh 32-bit value.
//!
//! The generator itself comes from the `rand` crate and is opaque to
//! verification: nothing is assumed about the values it produces, and the
//! arithmetic that narrows them into the range an opcode needs is verified
//! separately.

use vstd::prelude::*;

use rand::{RngCore, SeedableRng};

verus! {

#[verifier::external_type_specification]
#[verifier::external_body]
pub struct ExStdRng(rand::rngs::StdRng);

/// The interpreter's random-number generator.
pub struct ZRng {
    rng: rand::rngs::StdRng,
}

impl ZRng {
    /// A generator seeded unpredictably.
    /// Relies on rand's StdRng::from_entropy to build a generator from
    /// operating-system randomness; nothing is promised about its output.
    #[verifier::external_body]
    pub fn new_random() -> (r: ZRng) {
        ZRng { rng: rand::rngs::StdRng::from_entropy() }
    }

    /// Reseed deterministically from `seed`.
    /// Relies on rand's StdRng::seed_from_u64; nothing is promised about
    /// the generator's subsequent output.
    #[verifier::external_body]
    pub fn seed(&mut self, seed: u64) {
        self.rng = rand::rngs::StdRng::seed_from_u64(seed);
    }

    /// Reseed unpredictably.
    /// Relies on rand's StdRng::from_entropy, as `new_random` does.
    #[verifier::external_body]
    pub fn reseed_random(&mut self) {
        self.rng = rand::rngs::StdRng::from_entropy();
    }

    /// The next raw 32-bit value.
    /// Relies on rand's RngCore::next_u32; the result may be anything.
    #[verifier::external_body]
    pub fn next_u32(&mut self) -> (r: u32) {
        self.rng.next_u32()
    }

    /// A value uniform in `1..=range`, by reducing the next raw value.
    pub fn next_in_range(&mut self, range: u16) -> (r: u16)
        requires
            range > 0,
        ensures
            1 <= r <= range,
    {
        let raw = self.next_u32();
        (raw % range as u32) as u16 + 1
    }
}

} // verus!
