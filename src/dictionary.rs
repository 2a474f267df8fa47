//! The 1024-word dictionary that phrases are written in.
//!
//! Every word is identified by its first three characters; lookups read only
//! those.

use vstd::prelude::*;

verus! {

/// The word stored at index `i` of the dictionary.
pub uninterp spec fn dictionary_word(i: nat) -> Seq<char>;

/// The index of the dictionary word that a token resolves to by prefix lookup,
/// if any.
pub uninterp spec fn word_index(token: Seq<char>) -> Option<nat>;

/// The number of leading characters that identify a dictionary word.
pub open spec fn prefix_len() -> nat {
    3
}

/// Whether the characters that a lookup reads are ASCII: the first three, or
/// all of a shorter token.
pub open spec fn lookup_safe(t: Seq<char>) -> bool {
    forall|i: int| 0 <= i < t.len() && i < prefix_len() ==> (#[trigger] t[i] as u32) < 128
}

/// Whether `w` is made of at least three lower-case ASCII letters.
pub open spec fn is_plain_word(w: Seq<char>) -> bool {
    &&& w.len() >= prefix_len()
    &&& forall|i: int| 0 <= i < w.len() ==> 97 <= (#[trigger] w[i] as u32) <= 122
}

/// Relies on `dictionary_1024::DICTIONARY_UNIQUE_PREFIX`: the number of leading
/// characters that identify a word.
#[verifier::external_body]
pub(crate) fn unique_prefix_len() -> (r: usize)
    ensures
        r == prefix_len(),
{
    dictionary_1024::DICTIONARY_UNIQUE_PREFIX
}

/// Relies on `dictionary_1024::word_at_index`: the word stored at `i`. Every
/// stored word is at least three lower-case letters, and a prefix lookup of it
/// finds `i` again.
#[verifier::external_body]
pub(crate) fn word_at_index(i: usize) -> (r: String)
    requires
        i < 1024,
    ensures
        r@ == dictionary_word(i as nat),
        is_plain_word(r@),
        word_index(r@) == Some(i as nat),
{
    dictionary_1024::word_at_index(i)
}

/// Relies on `dictionary_1024::index_of_word`: the index of the word whose
/// first three characters the token starts with; an error for a token shorter
/// than three characters or one that no word starts like.
#[verifier::external_body]
pub(crate) fn index_of_word(token: &str) -> (r: Option<usize>)
    requires
        lookup_safe(token@),
    ensures
        r is Some <==> word_index(token@) is Some,
        r is Some ==> r.unwrap() < 1024 && word_index(token@) == Some(r.unwrap() as nat),
        token@.len() < prefix_len() ==> r is None,
{
    dictionary_1024::index_of_word(token).ok()
}

/// Relies on `dictionary_1024::words_match`: true exactly when both words
/// resolve, by prefix lookup, to the same index.
#[verifier::external_body]
pub(crate) fn words_match(a: &str, b: &str) -> (r: bool)
    requires
        lookup_safe(a@),
        lookup_safe(b@),
    ensures
        r == (word_index(a@) is Some && word_index(a@) == word_index(b@)),
{
    dictionary_1024::words_match(a, b)
}

/// Whether a lookup of `t` reads ASCII characters only.
pub fn is_lookup_safe(t: &str) -> (r: bool)
    ensures
        r == lookup_safe(t@),
{
    let len = t.unicode_len();
    let mut i: usize = 0;
    while i < len && i < 3
        invariant
            len == t@.len(),
            i <= len,
            forall|j: int| 0 <= j < i ==> (#[trigger] t@[j] as u32) < 128,
        decreases len - i,
    {
        let c = t.get_char(i);
        if c as u32 >= 128 {
            return false;
        }
        i = i + 1;
    }
    true
}

} // verus!
