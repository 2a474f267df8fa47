//! The bit layout of a seed phrase's entropy words.
//!
//! A seed is read as one 128-bit big-endian number. The first twelve entropy
//! words carry ten bits each, most significant first; the thirteenth carries
//! the remaining eight bits.

use vstd::prelude::*;

verus! {

/// Number of words in a phrase that carry seed entropy.
pub const SEED_ENTROPY_WORDS: usize = 13;

/// Big-endian value of the first `j` bytes of `s`: the first byte is the most
/// significant.
pub open spec fn prefix_int(s: Seq<u8>, j: nat) -> u128
    decreases j,
{
    if j == 0 {
        0
    } else {
        (prefix_int(s, (j - 1) as nat) << 8u128) | (s[j - 1] as u128)
    }
}

/// Big-endian value of a seed.
pub open spec fn seed_int(s: Seq<u8>) -> u128 {
    prefix_int(s, s.len())
}

/// The dictionary index carried by entropy word `k` (0-based) of seed `s`.
pub open spec fn entropy_index(s: Seq<u8>, k: int) -> nat {
    if k < 12 {
        ((seed_int(s) >> ((118 - 10 * k) as u128)) & 0x3ffu128) as nat
    } else {
        (seed_int(s) & 0xffu128) as nat
    }
}

/// The thirteen entropy indices of a seed.
pub open spec fn entropy_indices(s: Seq<u8>) -> Seq<nat> {
    Seq::new(13, |k: int| entropy_index(s, k))
}

/// Whether `w` is a valid list of entropy indices: thirteen of them, the first
/// twelve below 1024 and the last below 256.
pub open spec fn valid_indices(w: Seq<nat>) -> bool {
    &&& w.len() == 13
    &&& forall|k: int| 0 <= k < 12 ==> #[trigger] w[k] < 1024
    &&& w[12] < 256
}

/// The number formed by the first `k` entropy indices of `w`, appended
/// most significant first: ten bits for each of the first twelve, eight for
/// the thirteenth.
pub open spec fn packed_int(w: Seq<nat>, k: nat) -> u128
    decreases k,
{
    if k == 0 {
        0
    } else if k <= 12 {
        (packed_int(w, (k - 1) as nat) << 10u128) | (w[k - 1] as u128)
    } else {
        (packed_int(w, 12) << 8u128) | (w[12] as u128)
    }
}

/// The sixteen big-endian bytes of a 128-bit number.
pub open spec fn bytes_of_int(n: u128) -> Seq<u8> {
    Seq::new(16, |i: int| (n >> ((120 - 8 * i) as u128)) as u8)
}

/// The seed that a list of entropy indices stands for.
pub open spec fn packed_seed(w: Seq<nat>) -> Seq<u8> {
    bytes_of_int(packed_int(w, 13))
}

proof fn lemma_sixteen_bytes(
    n: u128,
    b0: u8,
    b1: u8,
    b2: u8,
    b3: u8,
    b4: u8,
    b5: u8,
    b6: u8,
    b7: u8,
    b8: u8,
    b9: u8,
    b10: u8,
    b11: u8,
    b12: u8,
    b13: u8,
    b14: u8,
    b15: u8,
)
    by (bit_vector)
    requires
        n == (((((((((((((((((((((((((((((((b0 as u128) << 8u128) | (b1 as u128)) << 8u128) | (b2 as u128)) << 8u128) | (b3 as u128)) << 8u128) | (b4 as u128)) << 8u128) | (b5 as u128)) << 8u128) | (b6 as u128)) << 8u128) | (b7 as u128)) << 8u128) | (b8 as u128)) << 8u128) | (b9 as u128)) << 8u128) | (b10 as u128)) << 8u128) | (b11 as u128)) << 8u128) | (b12 as u128)) << 8u128) | (b13 as u128)) << 8u128) | (b14 as u128)) << 8u128) | (b15 as u128)),
    ensures
        (n >> 120u128) as u8 == b0,
        (n >> 112u128) as u8 == b1,
        (n >> 104u128) as u8 == b2,
        (n >> 96u128) as u8 == b3,
        (n >> 88u128) as u8 == b4,
        (n >> 80u128) as u8 == b5,
        (n >> 72u128) as u8 == b6,
        (n >> 64u128) as u8 == b7,
        (n >> 56u128) as u8 == b8,
        (n >> 48u128) as u8 == b9,
        (n >> 40u128) as u8 == b10,
        (n >> 32u128) as u8 == b11,
        (n >> 24u128) as u8 == b12,
        (n >> 16u128) as u8 == b13,
        (n >> 8u128) as u8 == b14,
        (n >> 0u128) as u8 == b15,
{
}

/// Reading back the bytes of a seed's big-endian value gives the seed.
pub proof fn lemma_bytes_of_seed_int(s: Seq<u8>)
    requires
        s.len() == 16,
    ensures
        bytes_of_int(seed_int(s)) == s,
{
    reveal_with_fuel(prefix_int, 17);
    assert((0u128 << 8u128) | (s[0] as u128) == s[0] as u128) by (bit_vector);
    let n = seed_int(s);
    assert(n == (((((((((((((((((((((((((((((((s[0] as u128) << 8u128) | (s[1] as u128)) << 8u128) | (s[2] as u128)) << 8u128) | (s[3] as u128)) << 8u128) | (s[4] as u128)) << 8u128) | (s[5] as u128)) << 8u128) | (s[6] as u128)) << 8u128) | (s[7] as u128)) << 8u128) | (s[8] as u128)) << 8u128) | (s[9] as u128)) << 8u128) | (s[10] as u128)) << 8u128) | (s[11] as u128)) << 8u128) | (s[12] as u128)) << 8u128) | (s[13] as u128)) << 8u128) | (s[14] as u128)) << 8u128) | (s[15] as u128)));
    lemma_sixteen_bytes(n, s[0], s[1], s[2], s[3], s[4], s[5], s[6], s[7], s[8], s[9], s[10], s[11], s[12], s[13], s[14], s[15]);
    assert(bytes_of_int(n) =~= s);
}

proof fn lemma_thirteen_words(n: u128)
    by (bit_vector)
    ensures
        ((((((((((((((((((((((((((n >> 118u128) & 0x3ffu128) << 10u128) | ((n >> 108u128) & 0x3ffu128)) << 10u128) | ((n >> 98u128) & 0x3ffu128)) << 10u128) | ((n >> 88u128) & 0x3ffu128)) << 10u128) | ((n >> 78u128) & 0x3ffu128)) << 10u128) | ((n >> 68u128) & 0x3ffu128)) << 10u128) | ((n >> 58u128) & 0x3ffu128)) << 10u128) | ((n >> 48u128) & 0x3ffu128)) << 10u128) | ((n >> 38u128) & 0x3ffu128)) << 10u128) | ((n >> 28u128) & 0x3ffu128)) << 10u128) | ((n >> 18u128) & 0x3ffu128)) << 10u128) | ((n >> 8u128) & 0x3ffu128)) << 8u128) | (n & 0xffu128)) == n,
{
}

/// Packing the entropy indices of a seed gives back the seed's value.
pub proof fn lemma_pack_entropy_indices(s: Seq<u8>)
    ensures
        packed_int(entropy_indices(s), 13) == seed_int(s),
{
    reveal_with_fuel(packed_int, 14);
    let n = seed_int(s);
    let w = entropy_indices(s);
    assert(forall|x: u128| (0u128 << 10u128) | x == x) by (bit_vector);
    assert(w[0] as u128 == ((n >> 118u128) & 0x3ffu128));
    assert(w[1] as u128 == ((n >> 108u128) & 0x3ffu128));
    assert(w[2] as u128 == ((n >> 98u128) & 0x3ffu128));
    assert(w[3] as u128 == ((n >> 88u128) & 0x3ffu128));
    assert(w[4] as u128 == ((n >> 78u128) & 0x3ffu128));
    assert(w[5] as u128 == ((n >> 68u128) & 0x3ffu128));
    assert(w[6] as u128 == ((n >> 58u128) & 0x3ffu128));
    assert(w[7] as u128 == ((n >> 48u128) & 0x3ffu128));
    assert(w[8] as u128 == ((n >> 38u128) & 0x3ffu128));
    assert(w[9] as u128 == ((n >> 28u128) & 0x3ffu128));
    assert(w[10] as u128 == ((n >> 18u128) & 0x3ffu128));
    assert(w[11] as u128 == ((n >> 8u128) & 0x3ffu128));
    assert(w[12] as u128 == (n & 0xffu128));
    assert(packed_int(w, 13) == (((((((((((((((((((((((((w[0] as u128) << 10u128) | (w[1] as u128)) << 10u128) | (w[2] as u128)) << 10u128) | (w[3] as u128)) << 10u128) | (w[4] as u128)) << 10u128) | (w[5] as u128)) << 10u128) | (w[6] as u128)) << 10u128) | (w[7] as u128)) << 10u128) | (w[8] as u128)) << 10u128) | (w[9] as u128)) << 10u128) | (w[10] as u128)) << 10u128) | (w[11] as u128)) << 8u128) | (w[12] as u128)));
    lemma_thirteen_words(n);
}

/// The entropy indices of a seed are valid indices.
pub proof fn lemma_entropy_indices_valid(s: Seq<u8>)
    ensures
        valid_indices(entropy_indices(s)),
{
    assert(forall|x: u128| #[trigger] (x & 0x3ffu128) < 1024u128) by (bit_vector);
    assert(forall|x: u128| #[trigger] (x & 0xffu128) < 256u128) by (bit_vector);
}

/// Packing the entropy indices of a seed gives back the seed.
pub proof fn lemma_seed_round_trip(s: Seq<u8>)
    requires
        s.len() == 16,
    ensures
        packed_seed(entropy_indices(s)) == s,
{
    lemma_pack_entropy_indices(s);
    lemma_bytes_of_seed_int(s);
}

proof fn lemma_unpack_thirteen_words(n: u128, w0: u128, w1: u128, w2: u128, w3: u128, w4: u128, w5: u128, w6: u128, w7: u128, w8: u128, w9: u128, w10: u128, w11: u128, w12: u128)
    by (bit_vector)
    requires
        w0 < 1024,
        w1 < 1024,
        w2 < 1024,
        w3 < 1024,
        w4 < 1024,
        w5 < 1024,
        w6 < 1024,
        w7 < 1024,
        w8 < 1024,
        w9 < 1024,
        w10 < 1024,
        w11 < 1024,
        w12 < 256,
        n == ((((((((((((((((((((((((w0 << 10u128) | w1) << 10u128) | w2) << 10u128) | w3) << 10u128) | w4) << 10u128) | w5) << 10u128) | w6) << 10u128) | w7) << 10u128) | w8) << 10u128) | w9) << 10u128) | w10) << 10u128) | w11) << 8u128) | w12),
    ensures
        ((((((((((((((((((((((((((((((((n >> 120u128) as u8 as u128) << 8u128) | ((n >> 112u128) as u8 as u128)) << 8u128) | ((n >> 104u128) as u8 as u128)) << 8u128) | ((n >> 96u128) as u8 as u128)) << 8u128) | ((n >> 88u128) as u8 as u128)) << 8u128) | ((n >> 80u128) as u8 as u128)) << 8u128) | ((n >> 72u128) as u8 as u128)) << 8u128) | ((n >> 64u128) as u8 as u128)) << 8u128) | ((n >> 56u128) as u8 as u128)) << 8u128) | ((n >> 48u128) as u8 as u128)) << 8u128) | ((n >> 40u128) as u8 as u128)) << 8u128) | ((n >> 32u128) as u8 as u128)) << 8u128) | ((n >> 24u128) as u8 as u128)) << 8u128) | ((n >> 16u128) as u8 as u128)) << 8u128) | ((n >> 8u128) as u8 as u128)) << 8u128) | ((n >> 0u128) as u8 as u128)) == n,
        ((n >> 118u128) & 0x3ffu128) == w0,
        ((n >> 108u128) & 0x3ffu128) == w1,
        ((n >> 98u128) & 0x3ffu128) == w2,
        ((n >> 88u128) & 0x3ffu128) == w3,
        ((n >> 78u128) & 0x3ffu128) == w4,
        ((n >> 68u128) & 0x3ffu128) == w5,
        ((n >> 58u128) & 0x3ffu128) == w6,
        ((n >> 48u128) & 0x3ffu128) == w7,
        ((n >> 38u128) & 0x3ffu128) == w8,
        ((n >> 28u128) & 0x3ffu128) == w9,
        ((n >> 18u128) & 0x3ffu128) == w10,
        ((n >> 8u128) & 0x3ffu128) == w11,
        (n & 0xffu128) == w12,
{
}

/// Reading the entropy indices of the seed that valid indices stand for gives
/// the indices back.
pub proof fn lemma_indices_round_trip(w: Seq<nat>)
    requires
        valid_indices(w),
    ensures
        entropy_indices(packed_seed(w)) == w,
{
    reveal_with_fuel(packed_int, 14);
    reveal_with_fuel(prefix_int, 17);
    assert(forall|x: u128| (0u128 << 10u128) | x == x) by (bit_vector);
    assert(forall|x: u128| (0u128 << 8u128) | x == x) by (bit_vector);
    let n = packed_int(w, 13);
    assert(n == (((((((((((((((((((((((((w[0] as u128) << 10u128) | (w[1] as u128)) << 10u128) | (w[2] as u128)) << 10u128) | (w[3] as u128)) << 10u128) | (w[4] as u128)) << 10u128) | (w[5] as u128)) << 10u128) | (w[6] as u128)) << 10u128) | (w[7] as u128)) << 10u128) | (w[8] as u128)) << 10u128) | (w[9] as u128)) << 10u128) | (w[10] as u128)) << 10u128) | (w[11] as u128)) << 8u128) | (w[12] as u128)));
    assert(w[0] < 1024 && w[1] < 1024 && w[2] < 1024 && w[3] < 1024 && w[4] < 1024);
    assert(w[5] < 1024 && w[6] < 1024 && w[7] < 1024 && w[8] < 1024 && w[9] < 1024);
    assert(w[10] < 1024 && w[11] < 1024);
    lemma_unpack_thirteen_words(n, w[0] as u128, w[1] as u128, w[2] as u128, w[3] as u128, w[4] as u128, w[5] as u128, w[6] as u128, w[7] as u128, w[8] as u128, w[9] as u128, w[10] as u128, w[11] as u128, w[12] as u128);
    let b = packed_seed(w);
    assert(seed_int(b) == (((((((((((((((((((((((((((((((b[0] as u128) << 8u128) | (b[1] as u128)) << 8u128) | (b[2] as u128)) << 8u128) | (b[3] as u128)) << 8u128) | (b[4] as u128)) << 8u128) | (b[5] as u128)) << 8u128) | (b[6] as u128)) << 8u128) | (b[7] as u128)) << 8u128) | (b[8] as u128)) << 8u128) | (b[9] as u128)) << 8u128) | (b[10] as u128)) << 8u128) | (b[11] as u128)) << 8u128) | (b[12] as u128)) << 8u128) | (b[13] as u128)) << 8u128) | (b[14] as u128)) << 8u128) | (b[15] as u128)));
    assert(entropy_indices(b) =~= w);
}

/// Indices as mathematical integers.
pub open spec fn nat_indices(w: Seq<usize>) -> Seq<nat> {
    w.map_values(|x: usize| x as nat)
}

fn seed_to_int(seed: &[u8; 16]) -> (n: u128)
    ensures
        n == seed_int(seed@),
{
    let mut n: u128 = 0;
    let mut i: usize = 0;
    while i < 16
        invariant
            i <= 16,
            n == prefix_int(seed@, i as nat),
        decreases 16 - i,
    {
        n = (n << 8u128) | (seed[i] as u128);
        i = i + 1;
    }
    n
}

/// The thirteen entropy indices that a seed is written with.
pub fn entropy_word_indices(seed: &[u8; 16]) -> (r: Vec<usize>)
    ensures
        nat_indices(r@) == entropy_indices(seed@),
{
    let n = seed_to_int(seed);
    let mut r: Vec<usize> = Vec::new();
    let mut k: usize = 0;
    while k < 12
        invariant
            k <= 12,
            n == seed_int(seed@),
            r@.len() == k,
            forall|j: int| 0 <= j < k ==> r@[j] as nat == entropy_index(seed@, j),
        decreases 12 - k,
    {
        let sh: u128 = (118 - 10 * k) as u128;
        let v: u128 = (n >> sh) & 0x3ffu128;
        assert(v < 1024) by (bit_vector)
            requires
                v == (n >> sh) & 0x3ffu128,
        ;
        r.push(v as usize);
        k = k + 1;
    }
    let v: u128 = n & 0xffu128;
    assert(v < 256) by (bit_vector)
        requires
            v == n & 0xffu128,
    ;
    r.push(v as usize);
    assert(nat_indices(r@) =~= entropy_indices(seed@));
    r
}

/// The seed that thirteen entropy indices stand for.
pub fn seed_from_word_indices(w: &Vec<usize>) -> (r: [u8; 16])
    requires
        w@.len() == 13,
    ensures
        r@ == packed_seed(nat_indices(w@)),
{
    let ghost iv = nat_indices(w@);
    let mut n: u128 = 0;
    let mut k: usize = 0;
    while k < 12
        invariant
            k <= 12,
            w@.len() == 13,
            iv == nat_indices(w@),
            n == packed_int(iv, k as nat),
        decreases 12 - k,
    {
        n = (n << 10u128) | (w[k] as u128);
        k = k + 1;
    }
    n = (n << 8u128) | (w[12] as u128);
    assert(n == packed_int(iv, 13));
    let mut out: [u8; 16] = [0u8; 16];
    let mut i: usize = 0;
    while i < 16
        invariant
            i <= 16,
            forall|j: int| 0 <= j < i ==> out@[j] == bytes_of_int(n)[j],
        decreases 16 - i,
    {
        out[i] = (n >> ((120 - 8 * i) as u128)) as u8;
        i = i + 1;
    }
    assert(out@ =~= bytes_of_int(n));
    out
}

} // verus!
