use crate::domain::crypto::{is_phrase_of, opt_str, str_result, MnemonicProvider};
use bip39::{Language, Mnemonic, MnemonicType, Seed};
use vstd::prelude::*;

verus! {

/// What `Mnemonic::from_phrase` (English) reports on `phrase`: `None` when it
/// accepts the phrase, else the message of its error.
pub uninterp spec fn bip39_phrase_error(phrase: Seq<char>) -> Option<Seq<char>>;

/// The 64 bytes of `Seed::new` for the mnemonic of an accepted `phrase` and `password`.
pub uninterp spec fn bip39_seed(phrase: Seq<char>, password: Seq<char>) -> [u8; 64];

/// The phrase lengths that BIP-39 defines.
#[derive(Clone, Copy, Debug, PartialEq, Eq, Structural)]
pub enum PhraseLength {
    Words12,
    Words15,
    Words18,
    Words21,
    Words24,
}

impl PhraseLength {
    /// The number of words.
    pub open spec fn words(self) -> nat {
        match self {
            PhraseLength::Words12 => 12,
            PhraseLength::Words15 => 15,
            PhraseLength::Words18 => 18,
            PhraseLength::Words21 => 21,
            PhraseLength::Words24 => 24,
        }
    }
}

/// `Mnemonic::new(.., Language::English).phrase()`: a phrase drawn at random.
/// Claimed of every outcome, as the crate's source shows: the phrase is the
/// English words of fresh entropy joined by single spaces, so it has the
/// requested number of lowercase words, and `Mnemonic::from_phrase` accepts it.
/// Which phrase comes out is left unsaid: it rests on the random generator.
#[verifier::external_body]
fn random_phrase(length: PhraseLength) -> (phrase: String)
    ensures
        bip39_phrase_error(phrase@) is None,
        is_phrase_of(phrase@, length.words()),
{
    let mtype = match length {
        PhraseLength::Words12 => MnemonicType::Words12,
        PhraseLength::Words15 => MnemonicType::Words15,
        PhraseLength::Words18 => MnemonicType::Words18,
        PhraseLength::Words21 => MnemonicType::Words21,
        PhraseLength::Words24 => MnemonicType::Words24,
    };
    Mnemonic::new(mtype, Language::English).phrase().to_string()
}

/// `Mnemonic::from_phrase(phrase, Language::English)`, its outcome named by
/// `bip39_phrase_error`, the error turned into its message.
#[verifier::external_body]
fn parse_phrase(phrase: &str) -> (r: Result<(), String>)
    ensures
        match r {
            Ok(()) => bip39_phrase_error(phrase@) is None,
            Err(e) => bip39_phrase_error(phrase@) == Some(e@),
        },
{
    match Mnemonic::from_phrase(phrase, Language::English) {
        Ok(_) => Ok(()),
        Err(e) => Err(e.to_string()),
    }
}

/// `Seed::new(&Mnemonic::from_phrase(phrase, English)?, password).as_bytes()`:
/// the PBKDF2 seed, named by `bip39_seed`, which the crate makes 64 bytes long.
#[verifier::external_body]
fn phrase_seed(phrase: &str, password: &str) -> (r: Result<Vec<u8>, String>)
    ensures
        match r {
            Ok(s) => bip39_phrase_error(phrase@) is None && s@ == bip39_seed(phrase@, password@)@,
            Err(e) => bip39_phrase_error(phrase@) == Some(e@),
        },
{
    match Mnemonic::from_phrase(phrase, Language::English) {
        Ok(m) => Ok(Seed::new(&m, password).as_bytes().to_vec()),
        Err(e) => Err(e.to_string()),
    }
}

/// The message for a word count that BIP-39 does not define.
pub open spec fn invalid_word_count() -> Seq<char> {
    "Invalid word count"@
}

/// Mnemonic adapter over BIP-39 with the English word list.
pub struct Bip39Adapter;

impl MnemonicProvider for Bip39Adapter {
    open spec fn supports_word_count(&self, word_count: u8) -> bool {
        word_count == 12 || word_count == 15 || word_count == 18 || word_count == 21
            || word_count == 24
    }

    open spec fn word_count_refusal(&self, word_count: u8) -> Seq<char> {
        invalid_word_count()
    }

    open spec fn phrase_check(&self, phrase: Seq<char>) -> Result<(), Seq<char>> {
        match bip39_phrase_error(phrase) {
            None => Ok(()),
            Some(e) => Err(e),
        }
    }

    /// A missing passphrase is the empty one.
    open spec fn seed(&self, phrase: Seq<char>, passphrase: Option<Seq<char>>) -> Result<
        Seq<u8>,
        Seq<char>,
    > {
        match bip39_phrase_error(phrase) {
            Some(e) => Err(e),
            None => Ok(
                bip39_seed(
                    phrase,
                    match passphrase {
                        Some(p) => p,
                        None => Seq::empty(),
                    },
                )@,
            ),
        }
    }

    proof fn lemma_seed_iff_valid(&self, phrase: Seq<char>, passphrase: Option<Seq<char>>) {
    }

    proof fn lemma_seed_len(&self, phrase: Seq<char>, passphrase: Option<Seq<char>>) {
    }

    fn generate_mnemonic(&self, word_count: u8) -> (r: Result<String, String>) {
        let length = match word_count {
            12 => PhraseLength::Words12,
            15 => PhraseLength::Words15,
            18 => PhraseLength::Words18,
            21 => PhraseLength::Words21,
            24 => PhraseLength::Words24,
            _ => return Err(String::from_str("Invalid word count")),
        };
        Ok(random_phrase(length))
    }

    fn validate_mnemonic(&self, phrase: &str) -> (r: Result<(), String>) {
        parse_phrase(phrase)
    }

    /// The whole passphrase, or the empty one, salts the seed.
    fn get_seed(&self, phrase: &str, passphrase: Option<&str>) -> (r: Result<Vec<u8>, String>)
        ensures
            r matches Ok(s) ==> s@ == bip39_seed(
                phrase@,
                match passphrase {
                    Some(p) => p@,
                    None => Seq::<char>::empty(),
                },
            )@,
    {
        let password: &str = match passphrase {
            Some(p) => p,
            None => {
                proof {
                    reveal_strlit("");
                    assert(""@ =~= Seq::<char>::empty());
                }
                ""
            },
        };
        phrase_seed(phrase, password)
    }
}

/// The seed of an accepted phrase under a passphrase is the BIP-39 seed salted
/// with the whole passphrase, whatever its length; no passphrase is the empty
/// one; and a phrase that is refused has no seed under any passphrase.
pub proof fn law_seed_uses_whole_passphrase(phrase: Seq<char>, passphrase: Seq<char>)
    ensures
        bip39_phrase_error(phrase) is None ==> Bip39Adapter.seed(phrase, Some(passphrase))
            == Ok::<Seq<u8>, Seq<char>>(bip39_seed(phrase, passphrase)@),
        bip39_phrase_error(phrase) is None ==> Bip39Adapter.seed(phrase, None) == Ok::<
            Seq<u8>,
            Seq<char>,
        >(bip39_seed(phrase, Seq::empty())@),
        bip39_phrase_error(phrase) matches Some(e) ==> Bip39Adapter.seed(phrase, Some(passphrase))
            == Err::<Seq<u8>, Seq<char>>(e) && Bip39Adapter.seed(phrase, None) == Err::<
            Seq<u8>,
            Seq<char>,
        >(e),
{
}

} // verus!
