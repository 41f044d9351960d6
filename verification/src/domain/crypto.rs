use crate::domain::chain::Chain;
use vstd::prelude::*;

verus! {

/// The view of a result whose error is a message.
pub open spec fn str_result<T: View>(r: Result<T, String>) -> Result<T::V, Seq<char>> {
    match r {
        Ok(v) => Ok(v@),
        Err(e) => Err(e@),
    }
}

/// The view of an optional string slice.
pub open spec fn opt_str(s: Option<&str>) -> Option<Seq<char>> {
    match s {
        Some(t) => Some(t@),
        None => None,
    }
}

/// The views of a list of strings.
pub open spec fn strings_view(v: Seq<String>) -> Seq<Seq<char>> {
    v.map_values(|s: String| s@)
}

/// The view of a result that holds a list of strings or a message.
pub open spec fn strings_result(r: Result<Vec<String>, String>) -> Result<Seq<Seq<char>>, Seq<char>> {
    match r {
        Ok(v) => Ok(strings_view(v@)),
        Err(e) => Err(e@),
    }
}

/// A word of a generated phrase: one or more lowercase ASCII letters.
pub open spec fn is_word(w: Seq<char>) -> bool {
    &&& w.len() > 0
    &&& forall|i: int| 0 <= i < w.len() ==> 'a' <= #[trigger] w[i] <= 'z'
}

/// The words joined by single spaces.
pub open spec fn join_words(words: Seq<Seq<char>>) -> Seq<char>
    decreases words.len(),
{
    if words.len() == 0 {
        seq![]
    } else if words.len() == 1 {
        words[0]
    } else {
        join_words(words.drop_last()) + seq![' '] + words.last()
    }
}

/// `phrase` is made of exactly `n` words separated by single spaces.
pub open spec fn is_phrase_of(phrase: Seq<char>, n: nat) -> bool {
    exists|words: Seq<Seq<char>>|
        {
            &&& words.len() == n
            &&& forall|i: int| 0 <= i < words.len() ==> is_word(#[trigger] words[i])
            &&& phrase == join_words(words)
        }
}

/// Port for mnemonic phrases: generation, validation and seed derivation.
pub trait MnemonicProvider {
    /// Whether a phrase of `word_count` words can be generated.
    spec fn supports_word_count(&self, word_count: u8) -> bool;

    /// The message with which a generation of `word_count` words is refused.
    spec fn word_count_refusal(&self, word_count: u8) -> Seq<char>;

    /// The verdict on `phrase`: accepted, or refused with a message.
    spec fn phrase_check(&self, phrase: Seq<char>) -> Result<(), Seq<char>>;

    /// The seed of `phrase` under the optional passphrase, or the refusal message.
    spec fn seed(&self, phrase: Seq<char>, passphrase: Option<Seq<char>>) -> Result<
        Seq<u8>,
        Seq<char>,
    >;

    /// A seed exists for exactly the phrases that pass the check.
    proof fn lemma_seed_iff_valid(&self, phrase: Seq<char>, passphrase: Option<Seq<char>>)
        ensures
            (self.seed(phrase, passphrase) is Ok) == (self.phrase_check(phrase) is Ok),
    ;

    /// Every seed is 64 bytes long.
    proof fn lemma_seed_len(&self, phrase: Seq<char>, passphrase: Option<Seq<char>>)
        ensures
            self.seed(phrase, passphrase) matches Ok(s) ==> s.len() == 64,
    ;

    /// A fresh random phrase of `word_count` words that passes the check.
    fn generate_mnemonic(&self, word_count: u8) -> (r: Result<String, String>)
        ensures
            r is Ok <==> self.supports_word_count(word_count),
            r matches Ok(p) ==> self.phrase_check(p@) is Ok && is_phrase_of(p@, word_count as nat),
            r matches Err(e) ==> e@ == self.word_count_refusal(word_count),
    ;

    /// Checks `phrase`.
    fn validate_mnemonic(&self, phrase: &str) -> (r: Result<(), String>)
        ensures
            str_result(r) == self.phrase_check(phrase@),
    ;

    /// The 64-byte seed of `phrase` under `passphrase`.
    fn get_seed(&self, phrase: &str, passphrase: Option<&str>) -> (r: Result<Vec<u8>, String>)
        ensures
            str_result(r) == self.seed(phrase@, opt_str(passphrase)),
            r matches Ok(s) ==> s@.len() == 64,
    ;
}

/// Port for keys derived from a seed: chain addresses and EVM signatures.
pub trait CryptoProvider {
    /// The address on `chain` for `seed`, or the refusal message.
    spec fn address(&self, seed: Seq<u8>, chain: Chain) -> Result<Seq<char>, Seq<char>>;

    /// The EVM signature of `message_hash` by the key of `seed`, or the refusal message.
    spec fn signature(&self, seed: Seq<u8>, message_hash: Seq<u8>) -> Result<Seq<u8>, Seq<char>>;

    /// The address on `chain` of the key held in `seed`.
    fn derive_address(&self, seed: &[u8], chain: Chain) -> (r: Result<String, String>)
        ensures
            str_result(r) == self.address(seed@, chain),
    ;

    /// Signs the 32-byte `message_hash` with the EVM key held in `seed`.
    fn sign_evm_hash(&self, seed: &[u8], message_hash: [u8; 32]) -> (r: Result<Vec<u8>, String>)
        ensures
            str_result(r) == self.signature(seed@, message_hash@),
    ;
}

/// Port for the airgap channel: data split into QR-sized text fragments.
pub trait AirgapProvider {
    /// The fragments that carry `data`, or the refusal message.
    spec fn fragments(&self, data: Seq<u8>) -> Result<Seq<Seq<char>>, Seq<char>>;

    /// The text fragments that carry `data`.
    fn encode_to_ur(&self, data: &[u8]) -> (r: Result<Vec<String>, String>)
        ensures
            strings_result(r) == self.fragments(data@),
    ;
}

} // verus!
