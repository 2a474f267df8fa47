//! The single-use entropy source from which a seed's signing key is made.
//!
//! Key generation draws its secret from a random source. For a seed, that
//! source yields the SHA-256 digest of the seed, as exactly 32 bytes, exactly
//! once. Any other request is a misuse that the caller must refuse.

use crate::checksum::{sha256, sha256_digest};
use crate::Seed;
use vstd::prelude::*;

verus! {

/// The number of bytes that a seed source yields.
pub const SEED_SOURCE_BYTES: usize = 32;

/// A source that yields the digest of one seed, once.
pub struct SeedSource {
    seed: Seed,
    used: bool,
}

impl SeedSource {
    /// The seed whose digest the source yields.
    pub closed spec fn seed(&self) -> Seq<u8> {
        self.seed@
    }

    /// Whether the source has yielded its bytes already.
    pub closed spec fn is_used(&self) -> bool {
        self.used
    }

    /// A fresh source for `seed`.
    pub fn new(seed: Seed) -> (r: SeedSource)
        ensures
            r.seed() == seed@,
            !r.is_used(),
    {
        SeedSource { seed, used: false }
    }

    /// Whether a request for `len` bytes may be served: only a first request,
    /// and only for exactly 32 bytes.
    pub fn can_fill(&self, len: usize) -> (r: bool)
        ensures
            r == (!self.is_used() && len == SEED_SOURCE_BYTES),
    {
        !self.used && len == SEED_SOURCE_BYTES
    }

    /// Yields the digest of the seed and marks the source used, so that no
    /// further request can be served.
    pub fn take_bytes(&mut self) -> (r: [u8; 32])
        requires
            !old(self).is_used(),
        ensures
            r@ == sha256_digest(old(self).seed()),
            final(self).is_used(),
            final(self).seed() == old(self).seed(),
    {
        self.used = true;
        sha256(&self.seed)
    }
}

} // verus!
