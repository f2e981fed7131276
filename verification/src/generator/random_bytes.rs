//! A generator of messages made of random bytes.

use vstd::prelude::*;

use crate::settings::RandomGeneratorSettings;
use super::types::Generate;

verus! {

#[verifier::external_type_specification]
#[verifier::external_body]
pub struct ExRng(fastrand::Rng);

/// `fastrand::Rng::new`: a generator seeded from the thread's own random
/// generator. Nothing is promised of its state.
#[verifier::external_body]
fn new_rng() -> fastrand::Rng {
    fastrand::Rng::new()
}

/// `fastrand::Rng::u8` over the full range: any byte may come back.
#[verifier::external_body]
fn random_byte(rng: &fastrand::Rng) -> u8 {
    rng.u8(..)
}

/// Whether `byte` is a byte that a draw from `rng` can give: the result of
/// a call of `random_byte` on it, and nothing made up otherwise.
pub closed spec fn drawn_from(rng: &fastrand::Rng, byte: u8) -> bool {
    call_ensures(random_byte, (rng,), byte)
}

/// Makes messages of random bytes, all of the size that the settings give.
pub struct RandomGenerator {
    pub settings: RandomGeneratorSettings,
    pub rng_instance: fastrand::Rng,
}

impl RandomGenerator {
    /// A generator with the given settings and a freshly seeded source of
    /// random bytes.
    pub fn new(settings: RandomGeneratorSettings) -> (g: Self)
        ensures
            g.settings == settings,
    {
        RandomGenerator { settings: settings, rng_instance: new_rng() }
    }
}

impl Generate for RandomGenerator {
    /// A message of `message_size_in_bytes` bytes, each one drawn from the
    /// generator's source of random bytes.
    fn generate(&self) -> (message: Vec<u8>)
        ensures
            message@.len() == self.settings.message_size_in_bytes,
            forall|i: int|
                0 <= i < message@.len() ==> drawn_from(&self.rng_instance, #[trigger] message@[i]),
    {
        let size = self.settings.message_size_in_bytes;
        let mut message: Vec<u8> = Vec::new();
        let mut i: u64 = 0;
        while i < size
            invariant
                i <= size,
                size == self.settings.message_size_in_bytes,
                message@.len() == i,
                forall|k: int|
                    0 <= k < message@.len() ==> drawn_from(&self.rng_instance, #[trigger] message@[k]),
            decreases size - i,
        {
            message.push(random_byte(&self.rng_instance));
            i = i + 1;
        }
        message
    }
}

} // verus!
