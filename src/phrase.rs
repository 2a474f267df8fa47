//! Conversion between seeds and seed phrases.
//!
//! A phrase is fifteen dictionary words separated by single spaces: thirteen
//! entropy words that carry the seed's bits, then two checksum words taken from
//! the seed's SHA-256 digest.

use crate::bits::{
    entropy_index, entropy_indices, entropy_word_indices, lemma_entropy_indices_valid,
    lemma_indices_round_trip, lemma_seed_round_trip, nat_indices, packed_seed, seed_from_word_indices, valid_indices,
};
pub use crate::bits::SEED_ENTROPY_WORDS;
use crate::checksum::{seed_checksum, seed_checksum_indices, seed_to_checksum_words};
use crate::dictionary::{
    dictionary_word, index_of_word, is_lookup_safe, is_plain_word, lookup_safe, prefix_len,
    unique_prefix_len, word_at_index, word_index, words_match,
};
use crate::text::{capped, count_tokens, join_spaces, lemma_split_join, no_space, split_phrase, split_spaces, str_views};
use crate::Seed;
use vstd::prelude::*;

verus! {

/// Number of checksum words at the end of a phrase.
pub const SEED_CHECKSUM_WORDS: usize = 2;

/// Why a phrase does not stand for a seed.
#[derive(Debug, Clone, Copy, PartialEq, Eq, Structural)]
pub enum PhraseError {
    /// The phrase splits into `found` words, not fifteen (`usize::MAX` stands
    /// for any larger number).
    WordCount { found: usize },
    /// The entropy word at `position` is shorter than the dictionary's prefix.
    MalformedWord { position: usize },
    /// The entropy word at `position` matches no dictionary word.
    UnknownWord { position: usize },
    /// The thirteenth word has dictionary index `index`, above 255.
    OutOfRangeWord { index: usize },
    /// The checksum word at `position` is not the word with index `expected`.
    ChecksumMismatch { position: usize, expected: usize },
}

/// The fifteen words that a seed is written as.
pub open spec fn phrase_words(s: Seq<u8>) -> Seq<Seq<char>> {
    Seq::new(
        15,
        |k: int|
            if k < 13 {
                dictionary_word(entropy_index(s, k))
            } else if k == 13 {
                dictionary_word(seed_checksum(s).0)
            } else {
                dictionary_word(seed_checksum(s).1)
            },
    )
}

/// The phrase that a seed is written as.
pub open spec fn encode_phrase(s: Seq<u8>) -> Seq<char> {
    join_spaces(phrase_words(s))
}

/// The dictionary index of the entropy token `t` at position `k`.
pub open spec fn resolve_token(t: Seq<char>, k: nat) -> Result<nat, PhraseError> {
    if t.len() < prefix_len() {
        Err(PhraseError::MalformedWord { position: k as usize })
    } else if !lookup_safe(t) || word_index(t) is None {
        Err(PhraseError::UnknownWord { position: k as usize })
    } else {
        Ok(word_index(t).unwrap())
    }
}

/// The dictionary indices of the first `n` tokens, or the first failure.
pub open spec fn resolve_tokens(toks: Seq<Seq<char>>, n: nat) -> Result<Seq<nat>, PhraseError>
    decreases n,
{
    if n == 0 {
        Ok(Seq::empty())
    } else {
        match resolve_tokens(toks, (n - 1) as nat) {
            Err(e) => Err(e),
            Ok(ws) => match resolve_token(toks[n - 1], (n - 1) as nat) {
                Err(e) => Err(e),
                Ok(i) => Ok(ws.push(i)),
            },
        }
    }
}

/// Whether token `t` is accepted as the checksum word with index `c`: both
/// resolve by prefix lookup to the same index.
pub open spec fn checksum_word_matches(c: nat, t: Seq<char>) -> bool {
    &&& lookup_safe(t)
    &&& word_index(dictionary_word(c)) is Some
    &&& word_index(dictionary_word(c)) == word_index(t)
}

/// The seed that a phrase stands for, or why it stands for none.
pub open spec fn decode_phrase(p: Seq<char>) -> Result<Seq<u8>, PhraseError> {
    let toks = split_spaces(p);
    if toks.len() != 15 {
        Err(PhraseError::WordCount { found: capped(toks.len()) })
    } else {
        match resolve_tokens(toks, 13) {
            Err(e) => Err(e),
            Ok(ws) => if ws[12] > 255 {
                Err(PhraseError::OutOfRangeWord { index: ws[12] as usize })
            } else {
                let seed = packed_seed(ws);
                let c = seed_checksum(seed);
                if !checksum_word_matches(c.0, toks[13]) {
                    Err(PhraseError::ChecksumMismatch { position: 13, expected: c.0 as usize })
                } else if !checksum_word_matches(c.1, toks[14]) {
                    Err(PhraseError::ChecksumMismatch { position: 14, expected: c.1 as usize })
                } else {
                    Ok(seed)
                }
            },
        }
    }
}

/// A decoding result with the seed as a sequence of bytes.
pub open spec fn seed_outcome(r: Result<Seed, PhraseError>) -> Result<Seq<u8>, PhraseError> {
    match r {
        Ok(s) => Ok(s@),
        Err(e) => Err(e),
    }
}

proof fn lemma_resolve_ok(toks: Seq<Seq<char>>, v: Seq<nat>, n: nat)
    requires
        n <= v.len(),
        n <= toks.len(),
        forall|k: int| 0 <= k < n ==> resolve_token(#[trigger] toks[k], k as nat) == Ok::<nat, PhraseError>(v[k]),
    ensures
        resolve_tokens(toks, n) == Ok::<Seq<nat>, PhraseError>(v.take(n as int)),
    decreases n,
{
    if n > 0 {
        lemma_resolve_ok(toks, v, (n - 1) as nat);
        assert(v.take(n as int) =~= v.take(n - 1).push(v[n - 1]));
    } else {
        assert(v.take(0) =~= Seq::<nat>::empty());
    }
}

proof fn lemma_resolve_err(toks: Seq<Seq<char>>, k: nat, n: nat)
    requires
        k <= n,
        resolve_tokens(toks, k) is Err,
    ensures
        resolve_tokens(toks, n) == resolve_tokens(toks, k),
    decreases n,
{
    if n > k {
        lemma_resolve_err(toks, k, (n - 1) as nat);
    }
}

proof fn lemma_resolve_values(toks: Seq<Seq<char>>, n: nat)
    requires
        resolve_tokens(toks, n) is Ok,
    ensures
        resolve_tokens(toks, n)->Ok_0.len() == n,
        forall|k: int|
            0 <= k < n ==> resolve_token(#[trigger] toks[k], k as nat) == Ok::<nat, PhraseError>(
                resolve_tokens(toks, n)->Ok_0[k],
            ),
    decreases n,
{
    if n > 0 {
        lemma_resolve_values(toks, (n - 1) as nat);
    }
}

proof fn lemma_resolve_same_prefix(a: Seq<Seq<char>>, b: Seq<Seq<char>>, n: nat)
    requires
        n <= a.len(),
        n <= b.len(),
        forall|k: int| 0 <= k < n ==> a[k] == b[k],
    ensures
        resolve_tokens(a, n) == resolve_tokens(b, n),
    decreases n,
{
    if n > 0 {
        lemma_resolve_same_prefix(a, b, (n - 1) as nat);
        assert(a[n - 1] == b[n - 1]);
    }
}

/// Writes a seed as a phrase of fifteen dictionary words. The phrase decodes
/// back to the seed.
pub fn seed_to_seed_phrase(seed: Seed) -> (r: String)
    ensures
        r@ == encode_phrase(seed@),
        decode_phrase(r@) == Ok::<Seq<u8>, PhraseError>(seed@),
{
    let idx = entropy_word_indices(&seed);
    proof {
        lemma_entropy_indices_valid(seed@);
        reveal_strlit(" ");
        assert(" "@ =~= seq![' ']);
    }
    let ghost target = phrase_words(seed@);
    let mut phrase = String::new();
    let ghost mut words: Seq<Seq<char>> = Seq::empty();
    let mut k: usize = 0;
    while k < SEED_ENTROPY_WORDS
        invariant
            k <= 13,
            idx@.len() == 13,
            nat_indices(idx@) == entropy_indices(seed@),
            valid_indices(entropy_indices(seed@)),
            target == phrase_words(seed@),
            words.len() == k,
            forall|j: int| 0 <= j < k ==> #[trigger] words[j] == target[j],
            forall|j: int|
                0 <= j < k ==> is_plain_word(#[trigger] words[j]) && word_index(words[j]) == Some(
                    entropy_index(seed@, j),
                ),
            k > 0 ==> phrase@ == join_spaces(words),
            k == 0 ==> phrase@ == Seq::<char>::empty(),
            " "@ == seq![' '],
        decreases 13 - k,
    {
        assert(nat_indices(idx@)[k as int] == idx@[k as int] as nat);
        let w = word_at_index(idx[k]);
        let ghost before = phrase@;
        if k != 0 {
            phrase.append(" ");
        }
        phrase.append(w.as_str());
        proof {
            let prev = words;
            words = words.push(w@);
            assert(words.drop_last() =~= prev);
            if k == 0 {
                assert(join_spaces(words) == words[0]);
                assert(phrase@ =~= before + w@);
                assert(phrase@ =~= w@);
            } else {
                assert(phrase@ =~= before + seq![' '] + w@);
                assert(phrase@ =~= join_spaces(prev) + seq![' '] + w@);
            }
        }
        k = k + 1;
    }
    let (c1, c2) = seed_to_checksum_words(&seed);
    phrase.append(" ");
    phrase.append(c1.as_str());
    proof {
        let prev = words;
        words = words.push(c1@);
        assert(words.drop_last() =~= prev);
        assert(phrase@ =~= join_spaces(prev) + seq![' '] + c1@);
    }
    phrase.append(" ");
    phrase.append(c2.as_str());
    proof {
        let prev = words;
        words = words.push(c2@);
        assert(words.drop_last() =~= prev);
        assert(phrase@ =~= join_spaces(prev) + seq![' '] + c2@);
        assert(words =~= target);
        lemma_encode_decodes(seed@, words);
    }
    phrase
}

proof fn lemma_plain_no_space(w: Seq<char>)
    requires
        is_plain_word(w),
    ensures
        no_space(w),
        lookup_safe(w),
{
    assert forall|i: int| 0 <= i < w.len() implies #[trigger] w[i] != ' ' by {
        assert(97 <= (w[i] as u32));
    }
}

proof fn lemma_encode_decodes(s: Seq<u8>, words: Seq<Seq<char>>)
    requires
        s.len() == 16,
        words == phrase_words(s),
        valid_indices(entropy_indices(s)),
        forall|j: int|
            0 <= j < 13 ==> is_plain_word(#[trigger] words[j]) && word_index(words[j]) == Some(
                entropy_index(s, j),
            ),
        is_plain_word(words[13]),
        is_plain_word(words[14]),
        word_index(words[13]) == Some(seed_checksum(s).0),
        word_index(words[14]) == Some(seed_checksum(s).1),
    ensures
        decode_phrase(join_spaces(words)) == Ok::<Seq<u8>, PhraseError>(s),
{
    assert forall|k: int| 0 <= k < words.len() implies no_space(#[trigger] words[k]) by {
        lemma_plain_no_space(words[k]);
    }
    lemma_split_join(words);
    let e = entropy_indices(s);
    assert forall|k: int| 0 <= k < 13 implies resolve_token(#[trigger] words[k], k as nat)
        == Ok::<nat, PhraseError>(e[k]) by {
        lemma_plain_no_space(words[k]);
    }
    lemma_resolve_ok(words, e, 13);
    assert(e.take(13) =~= e);
    lemma_seed_round_trip(s);
    lemma_plain_no_space(words[13]);
    lemma_plain_no_space(words[14]);
}

/// Reads the seed that a phrase stands for. Fails with the first fault found,
/// checking in this order: the word count, each entropy word, the range of the
/// thirteenth word, then each checksum word.
pub fn seed_phrase_to_seed(phrase: &str) -> (r: Result<Seed, PhraseError>)
    ensures
        seed_outcome(r) == decode_phrase(phrase@),
{
    let count = count_tokens(phrase);
    if count != SEED_ENTROPY_WORDS + SEED_CHECKSUM_WORDS {
        return Err(PhraseError::WordCount { found: count });
    }
    let words = split_phrase(phrase);
    let ghost toks = split_spaces(phrase@);
    assert(toks.len() == words@.len());
    let min_len = unique_prefix_len();
    let mut idx: Vec<usize> = Vec::new();
    let mut k: usize = 0;
    assert(nat_indices(idx@) =~= Seq::<nat>::empty());
    while k < SEED_ENTROPY_WORDS
        invariant
            k <= 13,
            words@.len() == 15,
            toks.len() == 15,
            str_views(words@) == toks,
            toks == split_spaces(phrase@),
            min_len == prefix_len(),
            idx@.len() == k,
            resolve_tokens(toks, k as nat) == Ok::<Seq<nat>, PhraseError>(nat_indices(idx@)),
        decreases 13 - k,
    {
        let t = words[k];
        assert(t@ == toks[k as int]);
        if t.unicode_len() < min_len {
            proof {
                lemma_resolve_err(toks, (k + 1) as nat, 13);
            }
            return Err(PhraseError::MalformedWord { position: k });
        }
        if !is_lookup_safe(t) {
            proof {
                lemma_resolve_err(toks, (k + 1) as nat, 13);
            }
            return Err(PhraseError::UnknownWord { position: k });
        }
        match index_of_word(t) {
            None => {
                proof {
                    lemma_resolve_err(toks, (k + 1) as nat, 13);
                }
                return Err(PhraseError::UnknownWord { position: k });
            },
            Some(i) => {
                let ghost prev = idx@;
                idx.push(i);
                assert(nat_indices(idx@) =~= nat_indices(prev).push(i as nat));
            },
        }
        k = k + 1;
    }
    let ghost ws = nat_indices(idx@);
    assert(ws[12] == idx@[12] as nat);
    if idx[12] > 255 {
        return Err(PhraseError::OutOfRangeWord { index: idx[12] });
    }
    let seed = seed_from_word_indices(&idx);
    let (i1, i2) = seed_checksum_indices(&seed);
    let w1 = word_at_index(i1);
    let w2 = word_at_index(i2);
    proof {
        lemma_plain_no_space(w1@);
        lemma_plain_no_space(w2@);
    }
    assert(words@[13]@ == toks[13]);
    assert(words@[14]@ == toks[14]);
    if !is_lookup_safe(words[13]) || !words_match(w1.as_str(), words[13]) {
        return Err(PhraseError::ChecksumMismatch { position: 13, expected: i1 });
    }
    if !is_lookup_safe(words[14]) || !words_match(w2.as_str(), words[14]) {
        return Err(PhraseError::ChecksumMismatch { position: 14, expected: i2 });
    }
    Ok(seed)
}

/// Whether a phrase stands for a seed; if it does not, why.
pub fn valid_seed_phrase(phrase: &str) -> (r: Result<(), PhraseError>)
    ensures
        r is Ok <==> decode_phrase(phrase@) is Ok,
        r is Err ==> decode_phrase(phrase@) == Err::<Seq<u8>, PhraseError>(r->Err_0),
{
    match seed_phrase_to_seed(phrase) {
        Ok(_) => Ok(()),
        Err(e) => Err(e),
    }
}

/// A phrase that does not split into fifteen words is rejected, with the
/// number of words that it has.
pub proof fn lemma_word_count_rejected(p: Seq<char>)
    requires
        split_spaces(p).len() != 15,
    ensures
        decode_phrase(p) == Err::<Seq<u8>, PhraseError>(
            PhraseError::WordCount { found: capped(split_spaces(p).len()) },
        ),
{
}

/// In a phrase of fifteen words, the first entropy word that is too short or
/// matches no dictionary word is the one reported.
pub proof fn lemma_first_bad_entropy_word_reported(p: Seq<char>, k: nat)
    requires
        split_spaces(p).len() == 15,
        k < 13,
        resolve_tokens(split_spaces(p), k) is Ok,
        resolve_token(split_spaces(p)[k as int], k) is Err,
    ensures
        decode_phrase(p) == Err::<Seq<u8>, PhraseError>(
            resolve_token(split_spaces(p)[k as int], k)->Err_0,
        ),
{
    let toks = split_spaces(p);
    assert(resolve_tokens(toks, k + 1) == Err::<Seq<nat>, PhraseError>(
        resolve_token(toks[k as int], k)->Err_0,
    ));
    lemma_resolve_err(toks, k + 1, 13);
}

/// A phrase whose thirteenth word resolves to a dictionary index of 256 or
/// more stands for no seed, whatever its checksum words are.
pub proof fn lemma_wide_thirteenth_word_rejected(p: Seq<char>)
    requires
        word_index(split_spaces(p)[12]) is Some,
        word_index(split_spaces(p)[12])->Some_0 >= 256,
    ensures
        decode_phrase(p) is Err,
{
    let toks = split_spaces(p);
    if toks.len() == 15 {
        if resolve_tokens(toks, 13) is Ok {
            lemma_resolve_values(toks, 13);
            assert(resolve_token(toks[12], 12) == Ok::<nat, PhraseError>(
                resolve_tokens(toks, 13)->Ok_0[12],
            ));
        }
    }
}

/// Replacing either checksum word of a valid phrase by a word that resolves
/// to a different dictionary index makes the phrase invalid.
pub proof fn lemma_checksum_word_change_rejected(toks: Seq<Seq<char>>, k: int, t: Seq<char>)
    requires
        toks.len() == 15,
        forall|i: int| 0 <= i < 15 ==> no_space(#[trigger] toks[i]),
        no_space(t),
        decode_phrase(join_spaces(toks)) is Ok,
        k == 13 || k == 14,
        word_index(t) != word_index(toks[k]),
    ensures
        decode_phrase(join_spaces(toks.update(k, t))) is Err,
{
    let changed = toks.update(k, t);
    lemma_split_join(toks);
    assert forall|i: int| 0 <= i < 15 implies no_space(#[trigger] changed[i]) by {
        if i != k {
            assert(changed[i] == toks[i]);
        }
    }
    lemma_split_join(changed);
    lemma_resolve_same_prefix(toks, changed, 13);
}

/// Whether every token that resolves, among the first thirteen of `toks` and
/// `t`, resolves to a dictionary index below 1024.
pub open spec fn indices_in_range(toks: Seq<Seq<char>>, t: Seq<char>) -> bool {
    &&& forall|i: int|
        0 <= i < 13 && word_index(#[trigger] toks[i]) is Some ==> word_index(toks[i])->Some_0 < 1024
    &&& word_index(t) is Some ==> word_index(t)->Some_0 < 1024
}

/// Changing an entropy word of a valid phrase to a word that resolves to a
/// different index changes the seed that the phrase stands for. The changed
/// phrase is accepted only when the new seed's checksum words resolve as the
/// old seed's do, that is, on a checksum collision.
pub proof fn lemma_entropy_word_change(toks: Seq<Seq<char>>, k: int, t: Seq<char>)
    requires
        toks.len() == 15,
        forall|i: int| 0 <= i < 15 ==> no_space(#[trigger] toks[i]),
        no_space(t),
        indices_in_range(toks, t),
        decode_phrase(join_spaces(toks)) is Ok,
        0 <= k < 13,
        word_index(t) != word_index(toks[k]),
    ensures
        decode_phrase(join_spaces(toks.update(k, t))) is Ok ==> {
            let old_seed = decode_phrase(join_spaces(toks))->Ok_0;
            let new_seed = decode_phrase(join_spaces(toks.update(k, t)))->Ok_0;
            &&& new_seed != old_seed
            &&& word_index(dictionary_word(seed_checksum(new_seed).0)) == word_index(
                dictionary_word(seed_checksum(old_seed).0),
            )
            &&& word_index(dictionary_word(seed_checksum(new_seed).1)) == word_index(
                dictionary_word(seed_checksum(old_seed).1),
            )
        },
{
    let changed = toks.update(k, t);
    lemma_split_join(toks);
    assert forall|i: int| 0 <= i < 15 implies no_space(#[trigger] changed[i]) by {
        if i != k {
            assert(changed[i] == toks[i]);
        }
    }
    lemma_split_join(changed);
    if decode_phrase(join_spaces(changed)) is Ok {
        lemma_resolve_values(toks, 13);
        lemma_resolve_values(changed, 13);
        let ws = resolve_tokens(toks, 13)->Ok_0;
        let ws2 = resolve_tokens(changed, 13)->Ok_0;
        assert(valid_indices(ws)) by {
            assert forall|i: int| 0 <= i < 12 implies #[trigger] ws[i] < 1024 by {
                assert(resolve_token(toks[i], i as nat) == Ok::<nat, PhraseError>(ws[i]));
            }
        }
        assert(valid_indices(ws2)) by {
            assert forall|i: int| 0 <= i < 12 implies #[trigger] ws2[i] < 1024 by {
                assert(resolve_token(changed[i], i as nat) == Ok::<nat, PhraseError>(ws2[i]));
                if i != k {
                    assert(changed[i] == toks[i]);
                }
            }
        }
        assert(resolve_token(toks[k], k as nat) == Ok::<nat, PhraseError>(ws[k]));
        assert(resolve_token(changed[k], k as nat) == Ok::<nat, PhraseError>(ws2[k]));
        assert(ws[k] != ws2[k]);
        lemma_indices_round_trip(ws);
        lemma_indices_round_trip(ws2);
        if packed_seed(ws) == packed_seed(ws2) {
            assert(ws[k] == entropy_indices(packed_seed(ws))[k]);
            assert(ws2[k] == entropy_indices(packed_seed(ws2))[k]);
        }
        assert(changed[13] == toks[13]);
        assert(changed[14] == toks[14]);
    }
}

} // verus!
