use crate::application::wallet_service::WalletService;
use crate::domain::chain::Chain;
use crate::domain::crypto::{
    str_result, strings_result, strings_view, AirgapProvider, MnemonicProvider,
};
use crate::domain::wallet::Wallet as DomainWallet;
use crate::infrastructure::bip39_adapter::{invalid_word_count, Bip39Adapter};
use crate::infrastructure::crypto_adapter::CryptoAdapter;
use crate::infrastructure::ur_adapter::{
    ur_fragments, ur_parts_numbered, UrAdapter, MAX_FRAGMENT_LENGTH,
};
use std::sync::Arc;
use vstd::prelude::*;

verus! {

/// The view of an optional owned string.
pub open spec fn opt_string(s: Option<String>) -> Option<Seq<char>> {
    match s {
        Some(t) => Some(t@),
        None => None,
    }
}

/// The message with which a hash of another length than 32 bytes is refused.
pub open spec fn hash_length_refusal() -> Seq<char> {
    "Message hash must be 32 bytes"@
}

/// The wallet as the mobile bindings see it: a mnemonic together with the
/// service that works on it.
pub struct Wallet {
    inner: DomainWallet,
    service: Arc<WalletService<Bip39Adapter, CryptoAdapter>>,
    airgap: Arc<UrAdapter>,
}

impl Wallet {
    /// The wallet's mnemonic.
    pub closed spec fn mnemonic(&self) -> Seq<char> {
        self.inner.mnemonic@
    }

    /// The service the wallet works through.
    pub closed spec fn service(&self) -> WalletService<Bip39Adapter, CryptoAdapter> {
        *self.service
    }

    fn service_new() -> (service: Arc<WalletService<Bip39Adapter, CryptoAdapter>>) {
        Arc::new(WalletService::new(Arc::new(Bip39Adapter), Arc::new(CryptoAdapter)))
    }

    /// A wallet with a fresh random mnemonic of `word_count` words.
    pub fn new_random(word_count: u8) -> (r: Result<Self, String>)
        ensures
            r is Ok <==> (word_count == 12 || word_count == 15 || word_count == 18 || word_count
                == 21 || word_count == 24),
            r matches Ok(w) ==> w.service().may_create(word_count, w.mnemonic()),
            r matches Err(e) ==> e@ == invalid_word_count(),
    {
        let service = Self::service_new();
        let inner = match service.create_random_wallet(word_count) {
            Ok(w) => w,
            Err(e) => return Err(e),
        };
        Ok(Self { inner, service, airgap: Arc::new(UrAdapter) })
    }

    /// The wallet of an existing mnemonic, once it is accepted.
    pub fn from_mnemonic(phrase: String) -> (r: Result<Self, String>)
        ensures
            match r {
                Ok(w) => Bip39Adapter.phrase_check(phrase@) is Ok && w.mnemonic() == phrase@,
                Err(e) => Bip39Adapter.phrase_check(phrase@) == Err::<(), Seq<char>>(e@),
            },
    {
        let service = Self::service_new();
        let inner = match service.import_wallet(phrase.as_str()) {
            Ok(w) => w,
            Err(e) => return Err(e),
        };
        Ok(Self { inner, service, airgap: Arc::new(UrAdapter) })
    }

    /// The wallet's mnemonic phrase.
    pub fn get_mnemonic(&self) -> (r: String)
        ensures
            r@ == self.mnemonic(),
    {
        self.inner.mnemonic.clone()
    }

    /// The address on `chain`, the seed taken under the optional PIN.
    pub fn derive_address(&self, chain: Chain, pin: Option<String>) -> (r: Result<String, String>)
        ensures
            str_result(r) == self.service().address_result(self.mnemonic(), chain, opt_string(pin)),
    {
        let pin_ref: Option<&str> = match &pin {
            Some(p) => Some(p.as_str()),
            None => None,
        };
        self.service.derive_address(&self.inner, chain, pin_ref)
    }

    /// Signs a 32-byte EVM hash under the optional PIN; a hash of any other
    /// length is refused.
    pub fn sign_evm_hash(&self, message_hash: Vec<u8>, pin: Option<String>) -> (r: Result<
        Vec<u8>,
        String,
    >)
        ensures
            message_hash@.len() != 32 ==> (r matches Err(e) && e@ == hash_length_refusal()),
            message_hash@.len() == 32 ==> str_result(r) == self.service().signature_result(
                self.mnemonic(),
                message_hash@,
                opt_string(pin),
            ),
    {
        if message_hash.len() != 32 {
            return Err(String::from_str("Message hash must be 32 bytes"));
        }
        let mut hash_arr = [0u8; 32];
        for i in 0..32
            invariant
                message_hash@.len() == 32,
                forall|j: int| 0 <= j < i ==> hash_arr@[j] == message_hash@[j],
        {
            hash_arr[i] = message_hash[i];
        }
        assert(hash_arr@ =~= message_hash@);
        let pin_ref: Option<&str> = match &pin {
            Some(p) => Some(p.as_str()),
            None => None,
        };
        self.service.sign_evm_hash(&self.inner, hash_arr, pin_ref)
    }

    /// The UR fragments that carry `data` over QR codes: for non-empty data
    /// always at least one, each headed by its number and the count.
    pub fn encode_qr_fragments(&self, data: Vec<u8>, _type_str: String) -> (r: Result<
        Vec<String>,
        String,
    >)
        ensures
            strings_result(r) == ur_fragments(data@, MAX_FRAGMENT_LENGTH as nat),
            data@.len() > 0 ==> r is Ok,
            r matches Ok(v) ==> v@.len() >= 1 && ur_parts_numbered(strings_view(v@)),
    {
        self.airgap.encode_to_ur(data.as_slice())
    }
}

} // verus!
