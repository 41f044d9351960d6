use crate::domain::chain::Chain;
use crate::domain::crypto::{
    is_phrase_of, opt_str, str_result, CryptoProvider, MnemonicProvider,
};
use crate::domain::wallet::Wallet;
use crate::infrastructure::bip39_adapter::{
    bip39_phrase_error, bip39_seed, law_seed_uses_whole_passphrase, Bip39Adapter,
};
use crate::infrastructure::crypto_adapter::{
    base58, ed25519_public_key, evm_address, hex_lower, is_evm_address_text, keccak256, key_refusal,
    secp256k1_public_key, secp256k1_secret_ok, is_solana_address_text, law_evm_address_shape,
    law_signature_is_of_the_given_hash, law_solana_address_shape, secp256k1_sign_prehash,
    CryptoAdapter,
};
use std::sync::Arc;
use vstd::prelude::*;

verus! {

/// The mnemonic held by the wallet of an outcome, or the refusal message.
pub open spec fn wallet_result(r: Result<Wallet, String>) -> Result<Seq<char>, Seq<char>> {
    match r {
        Ok(w) => Ok(w.mnemonic@),
        Err(e) => Err(e@),
    }
}

/// Drives wallet creation, import, address derivation and signing through the
/// mnemonic and crypto ports.
pub struct WalletService<M: MnemonicProvider, C: CryptoProvider> {
    mnemonic_provider: Arc<M>,
    crypto_provider: Arc<C>,
}

impl<M: MnemonicProvider, C: CryptoProvider> WalletService<M, C> {
    /// The mnemonic port.
    pub closed spec fn mnemonics(&self) -> M {
        *self.mnemonic_provider
    }

    /// The crypto port.
    pub closed spec fn crypto(&self) -> C {
        *self.crypto_provider
    }

    /// Whether `phrase` is a wallet that creating one of `word_count` words may give.
    pub open spec fn may_create(&self, word_count: u8, phrase: Seq<char>) -> bool {
        &&& self.mnemonics().supports_word_count(word_count)
        &&& self.mnemonics().phrase_check(phrase) is Ok
        &&& is_phrase_of(phrase, word_count as nat)
    }

    /// The mnemonic of the wallet that importing `phrase` gives, or the refusal.
    pub open spec fn import_result(&self, phrase: Seq<char>) -> Result<Seq<char>, Seq<char>> {
        match self.mnemonics().phrase_check(phrase) {
            Ok(_) => Ok(phrase),
            Err(e) => Err(e),
        }
    }

    /// The address on `chain` of the wallet with mnemonic `phrase` under `pin`.
    pub open spec fn address_result(
        &self,
        phrase: Seq<char>,
        chain: Chain,
        pin: Option<Seq<char>>,
    ) -> Result<Seq<char>, Seq<char>> {
        match self.mnemonics().seed(phrase, pin) {
            Err(e) => Err(e),
            Ok(seed) => self.crypto().address(seed, chain),
        }
    }

    /// The EVM signature of `message_hash` by the wallet with mnemonic `phrase` under `pin`.
    pub open spec fn signature_result(
        &self,
        phrase: Seq<char>,
        message_hash: Seq<u8>,
        pin: Option<Seq<char>>,
    ) -> Result<Seq<u8>, Seq<char>> {
        match self.mnemonics().seed(phrase, pin) {
            Err(e) => Err(e),
            Ok(seed) => self.crypto().signature(seed, message_hash),
        }
    }

    /// A service over the two ports.
    pub fn new(mnemonic_provider: Arc<M>, crypto_provider: Arc<C>) -> (service: Self)
        ensures
            service.mnemonics() == *mnemonic_provider,
            service.crypto() == *crypto_provider,
    {
        Self { mnemonic_provider, crypto_provider }
    }

    /// A new wallet with a fresh random mnemonic of `word_count` words.
    pub fn create_random_wallet(&self, word_count: u8) -> (r: Result<Wallet, String>)
        ensures
            r is Ok <==> self.mnemonics().supports_word_count(word_count),
            r matches Ok(w) ==> self.may_create(word_count, w.mnemonic@),
            r matches Err(e) ==> e@ == self.mnemonics().word_count_refusal(word_count),
    {
        let phrase = match self.mnemonic_provider.generate_mnemonic(word_count) {
            Ok(p) => p,
            Err(e) => return Err(e),
        };
        Ok(Wallet::new(phrase))
    }

    /// The wallet of an existing mnemonic, once the mnemonic port accepts it.
    pub fn import_wallet(&self, phrase: &str) -> (r: Result<Wallet, String>)
        ensures
            wallet_result(r) == self.import_result(phrase@),
    {
        match self.mnemonic_provider.validate_mnemonic(phrase) {
            Ok(()) => {},
            Err(e) => return Err(e),
        }
        Ok(Wallet::new(phrase.to_owned()))
    }

    /// The address on `chain` of `wallet`, its seed taken under the optional PIN.
    pub fn derive_address(&self, wallet: &Wallet, chain: Chain, pin: Option<&str>) -> (r: Result<
        String,
        String,
    >)
        ensures
            str_result(r) == self.address_result(wallet.mnemonic@, chain, opt_str(pin)),
    {
        let seed = match self.mnemonic_provider.get_seed(wallet.mnemonic.as_str(), pin) {
            Ok(s) => s,
            Err(e) => return Err(e),
        };
        self.crypto_provider.derive_address(seed.as_slice(), chain)
    }

    /// Signs the 32-byte `message_hash` with the EVM key of `wallet` under the optional PIN.
    pub fn sign_evm_hash(&self, wallet: &Wallet, message_hash: [u8; 32], pin: Option<&str>) -> (r:
        Result<Vec<u8>, String>)
        ensures
            str_result(r) == self.signature_result(wallet.mnemonic@, message_hash@, opt_str(pin)),
    {
        let seed = match self.mnemonic_provider.get_seed(wallet.mnemonic.as_str(), pin) {
            Ok(s) => s,
            Err(e) => return Err(e),
        };
        self.crypto_provider.sign_evm_hash(seed.as_slice(), message_hash)
    }
}

/// A created wallet can be imported again from its mnemonic, and the import
/// gives back the same mnemonic.
pub proof fn law_created_wallet_imports<M: MnemonicProvider, C: CryptoProvider>(
    service: WalletService<M, C>,
    word_count: u8,
    phrase: Seq<char>,
)
    requires
        service.may_create(word_count, phrase),
    ensures
        service.import_result(phrase) == Ok::<Seq<char>, Seq<char>>(phrase),
{
}

/// The mnemonic of a created wallet has a seed under every PIN.
pub proof fn law_created_wallet_has_seed<M: MnemonicProvider, C: CryptoProvider>(
    service: WalletService<M, C>,
    word_count: u8,
    phrase: Seq<char>,
    pin: Option<Seq<char>>,
)
    requires
        service.may_create(word_count, phrase),
    ensures
        service.mnemonics().seed(phrase, pin) is Ok,
{
    service.mnemonics().lemma_seed_iff_valid(phrase, pin);
}

/// An imported wallet has a Solana address under every PIN: base58 text of 32
/// to 44 characters.
pub proof fn law_imported_wallet_has_solana_address<M: MnemonicProvider>(
    service: WalletService<M, CryptoAdapter>,
    phrase: Seq<char>,
    pin: Option<Seq<char>>,
)
    requires
        service.import_result(phrase) is Ok,
    ensures
        service.address_result(phrase, Chain::Solana, pin) matches Ok(a)
            && is_solana_address_text(a),
{
    service.mnemonics().lemma_seed_iff_valid(phrase, pin);
    service.mnemonics().lemma_seed_len(phrase, pin);
    let seed = service.mnemonics().seed(phrase, pin)->Ok_0;
    law_solana_address_shape(seed);
}

/// A created wallet has, under every PIN, a Solana address of 32 to 44 base58
/// characters, and an EVM address, whenever its key allows one, of `0x` and 40
/// lowercase hexadecimal digits.
pub proof fn law_created_wallet_addresses<M: MnemonicProvider>(
    service: WalletService<M, CryptoAdapter>,
    word_count: u8,
    phrase: Seq<char>,
    pin: Option<Seq<char>>,
)
    requires
        service.may_create(word_count, phrase),
    ensures
        service.address_result(phrase, Chain::Solana, pin) matches Ok(a)
            && is_solana_address_text(a),
        service.address_result(phrase, Chain::Evm, pin) matches Ok(a) ==> is_evm_address_text(a),
{
    law_imported_wallet_has_solana_address(service, phrase, pin);
    if service.mnemonics().seed(phrase, pin) is Ok {
        law_evm_address_shape(service.mnemonics().seed(phrase, pin)->Ok_0);
    }
}

/// A wallet signs EVM hashes under a PIN only if it has an EVM address under
/// that PIN: both rest on the same secp256k1 key.
pub proof fn law_signing_needs_evm_address<M: MnemonicProvider>(
    service: WalletService<M, CryptoAdapter>,
    phrase: Seq<char>,
    message_hash: Seq<u8>,
    pin: Option<Seq<char>>,
)
    ensures
        service.signature_result(phrase, message_hash, pin) is Ok ==> service.address_result(
            phrase,
            Chain::Evm,
            pin,
        ) is Ok,
{
}

/// With BIP-39 mnemonics, no PIN is the empty PIN: addresses and signatures agree.
pub proof fn law_no_pin_is_empty_pin<C: CryptoProvider>(
    service: WalletService<Bip39Adapter, C>,
    phrase: Seq<char>,
    chain: Chain,
    message_hash: Seq<u8>,
)
    ensures
        service.address_result(phrase, chain, None) == service.address_result(
            phrase,
            chain,
            Some(Seq::<char>::empty()),
        ),
        service.signature_result(phrase, message_hash, None) == service.signature_result(
            phrase,
            message_hash,
            Some(Seq::<char>::empty()),
        ),
{
}

/// With BIP-39 mnemonics and the crypto adapter, a wallet signs the very hash
/// it is given: every signature under a passphrase is the secp256k1 signature of
/// that hash by the key of the first 32 bytes of the wallet's seed under the
/// whole passphrase, and that key is the one behind the wallet's EVM address.
pub proof fn law_service_signs_the_given_hash(
    service: WalletService<Bip39Adapter, CryptoAdapter>,
    phrase: Seq<char>,
    message_hash: Seq<u8>,
    passphrase: Seq<char>,
)
    ensures
        service.signature_result(phrase, message_hash, Some(passphrase)) matches Ok(sig) ==> {
            let key = bip39_seed(phrase, passphrase)@.take(32);
            &&& bip39_phrase_error(phrase) is None
            &&& secp256k1_sign_prehash(key, message_hash) matches Some(s) && s@ == sig
            &&& service.address_result(phrase, Chain::Evm, Some(passphrase)) == evm_address(key)
            &&& evm_address(key) is Ok
        },
        service.signature_result(phrase, message_hash, None) == service.signature_result(
            phrase,
            message_hash,
            Some(Seq::<char>::empty()),
        ),
{
    law_seed_uses_whole_passphrase(phrase, passphrase);
    law_signature_is_of_the_given_hash(bip39_seed(phrase, passphrase)@, message_hash);
}

/// With BIP-39 mnemonics and the crypto adapter, the addresses of an accepted
/// wallet under a passphrase are those of the key in the first 32 bytes of its
/// seed under the whole passphrase: on EVM chains `0x` and the hex of the last
/// 20 bytes of the Keccak-256 digest of the public point without its tag byte,
/// on Solana the base58 text of the Ed25519 public key.
pub proof fn law_service_addresses_are_of_the_seed(
    service: WalletService<Bip39Adapter, CryptoAdapter>,
    phrase: Seq<char>,
    passphrase: Seq<char>,
)
    requires
        bip39_phrase_error(phrase) is None,
    ensures
        ({
            let key = bip39_seed(phrase, passphrase)@.take(32);
            &&& service.address_result(phrase, Chain::Evm, Some(passphrase)) == if secp256k1_secret_ok(
                key,
            ) {
                Ok("0x"@ + hex_lower(keccak256(secp256k1_public_key(key)@.subrange(1, 65))@.subrange(12, 32)))
            } else {
                Err::<Seq<char>, Seq<char>>(key_refusal())
            }
            &&& service.address_result(phrase, Chain::Solana, Some(passphrase)) == Ok::<
                Seq<char>,
                Seq<char>,
            >(base58(ed25519_public_key(key)@))
        }),
{
    law_seed_uses_whole_passphrase(phrase, passphrase);
}

} // verus!
