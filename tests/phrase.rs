use dictionary_1024::{index_of_word, word_at_index};
use seed15::phrase::{seed_phrase_to_seed, seed_to_seed_phrase, valid_seed_phrase, PhraseError};
use seed15::{random_seed, Seed};

// Converts a seed into a phrase and back, checking that the seed survives.
fn verify_conversion(seed: Seed) {
    let phrase = seed_to_seed_phrase(seed);
    valid_seed_phrase(&phrase).unwrap();
    let seed_conf = match seed_phrase_to_seed(&phrase) {
        Ok(s) => s,
        Err(e) => panic!("verify_conversion failed: {:?}\n\t{:?}", e, seed),
    };
    if seed != seed_conf {
        panic!("seed conversion failed: \n\t{:?}\n\t{:?}\n\t{}", seed, seed_conf, phrase);
    }
}

fn replace_word(phrase: &str, position: usize, word: &str) -> String {
    let mut words: Vec<&str> = phrase.split(' ').collect();
    words[position] = word;
    words.join(" ")
}

#[test]
fn check_unhappy_seeds() {
    let good_seed = random_seed();
    let good_phrase = seed_to_seed_phrase(good_seed);

    // Explore a bad checksum.
    let mut phrase_words: Vec<&str> = good_phrase.split(" ").collect();
    let wai0 = word_at_index(0);
    let wai1 = word_at_index(1);
    let wai2 = word_at_index(2);
    phrase_words[0] = &wai0;
    phrase_words[1] = &wai1;
    phrase_words[2] = &wai2;
    let bad_phrase = phrase_words.join(" ");
    valid_seed_phrase(&bad_phrase).unwrap_err();

    // Explore a malformed word.
    let mut phrase_words: Vec<&str> = good_phrase.split(" ").collect();
    phrase_words[0] = "ab";
    let bad_phrase = phrase_words.join(" ");
    valid_seed_phrase(&bad_phrase).unwrap_err();

    // Explore just a bad checksum.
    let mut phrase_words: Vec<&str> = good_phrase.split(" ").collect();
    if phrase_words[14] == word_at_index(0) {
        phrase_words[14] = &wai1;
    } else {
        phrase_words[14] = &wai0;
    }
    let bad_phrase = phrase_words.join(" ");
    valid_seed_phrase(&bad_phrase).unwrap_err();

    // Explore a missing word.
    let mut phrase_words: Vec<&str> = good_phrase.split(" ").collect();
    phrase_words[0] = "abx";
    let bad_phrase = phrase_words.join(" ");
    valid_seed_phrase(&bad_phrase).unwrap_err();

    // Explore adding an extra word.
    let mut phrase_words: Vec<&str> = good_phrase.split(" ").collect();
    phrase_words.push(&wai0);
    let bad_phrase = phrase_words.join(" ");
    valid_seed_phrase(&bad_phrase).unwrap_err();

    // Explore removing a word.
    let phrase_words: Vec<&str> = good_phrase.split(" ").collect();
    let bad_phrase = phrase_words[..14].join(" ");
    valid_seed_phrase(&bad_phrase).unwrap_err();
}

#[test]
fn check_seed_phrases() {
    // Try performing some generic seed phrase conversions.
    let mut seed = [0u8; 16];
    verify_conversion(seed);
    seed[0] = 185;
    verify_conversion(seed);
    seed[1] = 46;
    verify_conversion(seed);
    seed[2] = 7;
    verify_conversion(seed);
    seed[3] = 1;
    verify_conversion(seed);
    seed[4] = 254;
    verify_conversion(seed);
    seed[5] = 2;
    verify_conversion(seed);

    // Try with 1000 random seeds.
    for _ in 0..1000 {
        let seed = random_seed();
        verify_conversion(seed);
    }

    // A thirteenth word with its ninth bit set keeps the low eight bits, and
    // so the checksum, of the true word; it must still be rejected.
    for _ in 0..1000 {
        let seed = random_seed();
        let phrase = seed_to_seed_phrase(seed);
        let mut words: Vec<&str> = phrase.split(" ").collect();

        let word_index = index_of_word(words[12]).unwrap();
        if word_index > 255 {
            panic!("seed generated randomly with 13th word out of bounds");
        }
        let wai = word_at_index(word_index + 256);
        words[12] = &wai;
        let mut altered_phrase = words[0].to_string();
        for i in 1..words.len() {
            altered_phrase += " ";
            altered_phrase += words[i];
        }
        match valid_seed_phrase(&altered_phrase) {
            Ok(()) => panic!("phrase should not be valid after manipulation"),
            Err(_) => {}
        };
    }
}

#[test]
fn zero_seed_phrase() {
    let phrase = seed_to_seed_phrase([0u8; 16]);
    let words: Vec<&str> = phrase.split(' ').collect();
    assert_eq!(words.len(), 15);
    for w in &words[..13] {
        assert_eq!(*w, "abbey");
    }
    assert_eq!(words[0], word_at_index(0));
    // The checksum of sixteen zero bytes is the pair of indices 221 and 112.
    assert_eq!(words[13], word_at_index(221));
    assert_eq!(words[14], word_at_index(112));
    assert_eq!(seed_to_seed_phrase([0u8; 16]), phrase);
}

#[test]
fn full_seed_phrase() {
    let phrase = seed_to_seed_phrase([255u8; 16]);
    let words: Vec<&str> = phrase.split(' ').collect();
    assert_eq!(words.len(), 15);
    for w in &words[..12] {
        assert_eq!(*w, word_at_index(1023));
    }
    assert_eq!(words[12], word_at_index(255));
    assert_eq!(words[12], "egg");
    assert_eq!(words[13], word_at_index(363));
    assert_eq!(words[14], word_at_index(106));
    assert_eq!(seed_phrase_to_seed(&phrase), Ok([255u8; 16]));
}

#[test]
fn bit_layout_of_words() {
    // The first byte's top bit is the top bit of the first word; the last
    // byte fills the thirteenth word.
    let mut seed = [0u8; 16];
    seed[0] = 0x80;
    seed[15] = 0x05;
    let phrase = seed_to_seed_phrase(seed);
    let words: Vec<&str> = phrase.split(' ').collect();
    assert_eq!(words[0], word_at_index(512));
    for w in &words[1..12] {
        assert_eq!(*w, word_at_index(0));
    }
    assert_eq!(words[12], word_at_index(5));

    // Bits 10 to 19 of the seed form the second word.
    let mut seed = [0u8; 16];
    seed[1] = 0x3f;
    seed[2] = 0xf0;
    let phrase = seed_to_seed_phrase(seed);
    let words: Vec<&str> = phrase.split(' ').collect();
    assert_eq!(words[0], word_at_index(0));
    assert_eq!(words[1], word_at_index(1023));
    assert_eq!(words[2], word_at_index(0));
    assert_eq!(seed_phrase_to_seed(&phrase), Ok(seed));
}

#[test]
fn encoding_is_deterministic() {
    let seed = [7u8, 1, 2, 3, 4, 5, 6, 7, 8, 9, 10, 11, 12, 13, 14, 15];
    assert_eq!(seed_to_seed_phrase(seed), seed_to_seed_phrase(seed));
}

#[test]
fn word_count_errors() {
    let phrase = seed_to_seed_phrase([3u8; 16]);
    let words: Vec<&str> = phrase.split(' ').collect();
    let short = words[..14].join(" ");
    assert_eq!(seed_phrase_to_seed(&short), Err(PhraseError::WordCount { found: 14 }));
    let long = format!("{} abbey", phrase);
    assert_eq!(seed_phrase_to_seed(&long), Err(PhraseError::WordCount { found: 16 }));
    assert_eq!(seed_phrase_to_seed(""), Err(PhraseError::WordCount { found: 1 }));
    let doubled = phrase.replacen(' ', "  ", 1);
    assert_eq!(seed_phrase_to_seed(&doubled), Err(PhraseError::WordCount { found: 16 }));
}

#[test]
fn malformed_and_unknown_words() {
    let phrase = seed_to_seed_phrase([9u8; 16]);
    let bad = replace_word(&phrase, 0, "ab");
    assert_eq!(seed_phrase_to_seed(&bad), Err(PhraseError::MalformedWord { position: 0 }));
    let bad = replace_word(&phrase, 4, "abx");
    assert_eq!(seed_phrase_to_seed(&bad), Err(PhraseError::UnknownWord { position: 4 }));
    let bad = replace_word(&phrase, 7, "zzzz");
    assert_eq!(valid_seed_phrase(&bad), Err(PhraseError::UnknownWord { position: 7 }));
    let bad = replace_word(&phrase, 2, "éab");
    assert_eq!(seed_phrase_to_seed(&bad), Err(PhraseError::UnknownWord { position: 2 }));
    // The earliest faulty word is the one reported.
    let bad = replace_word(&replace_word(&phrase, 5, "ab"), 3, "qqq");
    assert_eq!(seed_phrase_to_seed(&bad), Err(PhraseError::UnknownWord { position: 3 }));
}

#[test]
fn out_of_range_thirteenth_word() {
    let seed = [0x11u8; 16];
    let phrase = seed_to_seed_phrase(seed);
    let words: Vec<&str> = phrase.split(' ').collect();
    let index = index_of_word(words[12]).unwrap();
    assert_eq!(index, 0x11);
    let wide = word_at_index(index + 256);
    let bad = replace_word(&phrase, 12, &wide);
    assert_eq!(
        seed_phrase_to_seed(&bad),
        Err(PhraseError::OutOfRangeWord { index: index + 256 })
    );
}

#[test]
fn checksum_mismatch_errors() {
    let phrase = seed_to_seed_phrase([0u8; 16]);
    let other = word_at_index(5);
    let bad = replace_word(&phrase, 13, &other);
    assert_eq!(
        seed_phrase_to_seed(&bad),
        Err(PhraseError::ChecksumMismatch { position: 13, expected: 221 })
    );
    let bad = replace_word(&phrase, 14, &other);
    assert_eq!(
        seed_phrase_to_seed(&bad),
        Err(PhraseError::ChecksumMismatch { position: 14, expected: 112 })
    );
    let bad = replace_word(&phrase, 14, "ab");
    assert_eq!(
        seed_phrase_to_seed(&bad),
        Err(PhraseError::ChecksumMismatch { position: 14, expected: 112 })
    );
    // Changing an entropy word changes the seed, and its checksum with it.
    let bad = replace_word(&phrase, 0, &word_at_index(1));
    assert!(matches!(
        seed_phrase_to_seed(&bad),
        Err(PhraseError::ChecksumMismatch { .. })
    ));
}

#[test]
fn prefixes_are_accepted() {
    let seed = [0x5au8, 1, 2, 3, 4, 5, 6, 7, 8, 9, 10, 11, 12, 13, 14, 0xee];
    let phrase = seed_to_seed_phrase(seed);
    let short: Vec<String> = phrase.split(' ').map(|w| w[..3].to_string()).collect();
    assert_eq!(seed_phrase_to_seed(&short.join(" ")), Ok(seed));
    let long: Vec<String> = phrase.split(' ').map(|w| format!("{}xyz", w)).collect();
    assert_eq!(seed_phrase_to_seed(&long.join(" ")), Ok(seed));
}
