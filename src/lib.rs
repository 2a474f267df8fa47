//! Conversion between 16-byte seeds and 15-word seed phrases, and deterministic
//! derivation of signing-key entropy from a seed.

pub mod bits;
pub mod checksum;
pub mod dictionary;
pub mod keypair;
pub mod phrase;
pub mod text;

use vstd::prelude::*;

verus! {

/// A seed: sixteen bytes of entropy.
pub type Seed = [u8; 16];

/// Relies on `userspace_rng::random256`: 32 bytes from a secure random
/// generator. Nothing is known of their values.
#[verifier::external_body]
fn random256() -> (r: [u8; 32]) {
    userspace_rng::random256()
}

/// The seed held by the first sixteen of 32 entropy bytes.
pub fn seed_from_entropy(bytes: &[u8; 32]) -> (r: Seed)
    ensures
        r@ == bytes@.subrange(0, 16),
{
    let mut seed: Seed = [0u8; 16];
    let mut i: usize = 0;
    while i < 16
        invariant
            i <= 16,
            forall|j: int| 0 <= j < i ==> seed@[j] == bytes@[j],
        decreases 16 - i,
    {
        seed[i] = bytes[i];
        i = i + 1;
    }
    assert(seed@ =~= bytes@.subrange(0, 16));
    seed
}

/// A new seed from secure random entropy.
pub fn random_seed() -> Seed {
    let bytes = random256();
    seed_from_entropy(&bytes)
}

} // verus!
