//! The checksum words of a seed, taken from its SHA-256 digest.

use crate::dictionary::{dictionary_word, word_at_index, word_index, is_plain_word};
use sha2::Digest;
use vstd::prelude::*;

verus! {

/// The SHA-256 digest of `data`.
pub uninterp spec fn sha256_digest(data: Seq<u8>) -> Seq<u8>;

/// Relies on `sha2::Sha256`: the SHA-256 digest of the sixteen bytes.
#[verifier::external_body]
pub(crate) fn sha256(data: &[u8; 16]) -> (r: [u8; 32])
    ensures
        r@ == sha256_digest(data@),
{
    sha2::Sha256::digest(data).into()
}

/// The two checksum indices held by a digest: its first twenty bits, ten bits
/// to each, most significant first.
pub open spec fn checksum_indices(d: Seq<u8>) -> (nat, nat) {
    (
        ((d[0] as nat) * 256 + (d[1] as nat)) / 64,
        (((d[1] as nat) * 1024 + (d[2] as nat) * 4) % 65536) / 64,
    )
}

/// The checksum indices of a seed.
pub open spec fn seed_checksum(s: Seq<u8>) -> (nat, nat) {
    checksum_indices(sha256_digest(s))
}

/// The two checksum indices held by a digest.
pub fn checksum_word_indices(digest: &[u8; 32]) -> (r: (usize, usize))
    ensures
        (r.0 as nat, r.1 as nat) == checksum_indices(digest@),
        r.0 < 1024,
        r.1 < 1024,
{
    let hi: usize = digest[0] as usize;
    let mid: usize = digest[1] as usize;
    let lo: usize = digest[2] as usize;
    let word1: usize = (hi * 256 + mid) / 64;
    let word2: usize = ((mid * 1024 + lo * 4) % 65536) / 64;
    (word1, word2)
}

/// The checksum indices of a seed.
pub fn seed_checksum_indices(seed: &[u8; 16]) -> (r: (usize, usize))
    ensures
        (r.0 as nat, r.1 as nat) == seed_checksum(seed@),
        r.0 < 1024,
        r.1 < 1024,
{
    let digest = sha256(seed);
    checksum_word_indices(&digest)
}

/// The two checksum words of a seed.
pub fn seed_to_checksum_words(seed: &[u8; 16]) -> (r: (String, String))
    ensures
        r.0@ == dictionary_word(seed_checksum(seed@).0),
        r.1@ == dictionary_word(seed_checksum(seed@).1),
        is_plain_word(r.0@),
        is_plain_word(r.1@),
        word_index(r.0@) == Some(seed_checksum(seed@).0),
        word_index(r.1@) == Some(seed_checksum(seed@).1),
{
    let (i1, i2) = seed_checksum_indices(seed);
    (word_at_index(i1), word_at_index(i2))
}

} // verus!
