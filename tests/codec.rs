use seed15::bits::{entropy_word_indices, seed_from_word_indices};
use seed15::checksum::{checksum_word_indices, seed_checksum_indices, seed_to_checksum_words};
use seed15::keypair::SeedSource;
use seed15::seed_from_entropy;
use seed15::text::{count_tokens, split_phrase};
use sha2::Digest;

#[test]
fn entropy_indices_of_seeds() {
    assert_eq!(entropy_word_indices(&[0u8; 16]), vec![0usize; 13]);
    let mut full = vec![1023usize; 12];
    full.push(255);
    assert_eq!(entropy_word_indices(&[255u8; 16]), full);
    let mut seed = [0u8; 16];
    seed[0] = 0b1011_1001;
    seed[1] = 0b0100_0000;
    let w = entropy_word_indices(&seed);
    assert_eq!(w[0], 0b10_1110_0101);
    assert_eq!(w[1], 0);
}

#[test]
fn packing_inverts_unpacking() {
    let seed = [185u8, 46, 7, 1, 254, 2, 0, 9, 80, 33, 17, 200, 201, 202, 3, 99];
    let w = entropy_word_indices(&seed);
    assert_eq!(seed_from_word_indices(&w), seed);
    let mut w = vec![0usize; 13];
    w[0] = 512;
    w[12] = 5;
    let mut expected = [0u8; 16];
    expected[0] = 0x80;
    expected[15] = 5;
    assert_eq!(seed_from_word_indices(&w), expected);
}

#[test]
fn checksum_indices_formula() {
    let mut digest = [0u8; 32];
    digest[0] = 0xab;
    digest[1] = 0xcd;
    digest[2] = 0xef;
    assert_eq!(checksum_word_indices(&digest), (687, 222));
    assert_eq!(checksum_word_indices(&[0xffu8; 32]), (1023, 1023));
    assert_eq!(checksum_word_indices(&[0u8; 32]), (0, 0));
}

#[test]
fn checksum_of_seeds() {
    assert_eq!(seed_checksum_indices(&[0u8; 16]), (221, 112));
    assert_eq!(seed_checksum_indices(&[255u8; 16]), (363, 106));
    let seed = [42u8; 16];
    let d = sha2::Sha256::digest(seed);
    let mut digest = [0u8; 32];
    digest.copy_from_slice(&d);
    assert_eq!(seed_checksum_indices(&seed), checksum_word_indices(&digest));
    let (a, b) = seed_to_checksum_words(&[0u8; 16]);
    assert_eq!(a, dictionary_1024::word_at_index(221));
    assert_eq!(b, dictionary_1024::word_at_index(112));
}

#[test]
fn split_on_single_spaces() {
    assert_eq!(split_phrase("a b  c"), vec!["a", "b", "", "c"]);
    assert_eq!(split_phrase(""), vec![""]);
    assert_eq!(split_phrase(" x "), vec!["", "x", ""]);
    assert_eq!(split_phrase("é ü"), vec!["é", "ü"]);
}

#[test]
fn seed_from_first_entropy_bytes() {
    let mut bytes = [0u8; 32];
    for (i, b) in bytes.iter_mut().enumerate() {
        *b = i as u8 + 1;
    }
    let seed = seed_from_entropy(&bytes);
    assert_eq!(seed, [1u8, 2, 3, 4, 5, 6, 7, 8, 9, 10, 11, 12, 13, 14, 15, 16]);
}

#[test]
fn seed_source_serves_once() {
    let seed = [0u8; 16];
    let mut source = SeedSource::new(seed);
    assert!(source.can_fill(32));
    assert!(!source.can_fill(31));
    assert!(!source.can_fill(64));
    let bytes = source.take_bytes();
    let expected = sha2::Sha256::digest(seed);
    assert_eq!(&bytes[..], &expected[..]);
    assert_eq!(bytes[0], 0x37);
    assert!(!source.can_fill(32));
}

#[test]
fn seed_source_is_deterministic() {
    let seed = [77u8; 16];
    let mut a = SeedSource::new(seed);
    let mut b = SeedSource::new(seed);
    assert_eq!(a.take_bytes(), b.take_bytes());
}

#[test]
fn token_counts() {
    assert_eq!(count_tokens(""), 1);
    assert_eq!(count_tokens("a b  c"), 4);
    assert_eq!(count_tokens(" x "), 3);
    assert_eq!(count_tokens("é ü"), 2);
}
