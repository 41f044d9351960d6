use k256::ecdsa::signature::hazmat::PrehashVerifier;
use k256::ecdsa::{Signature, SigningKey, VerifyingKey};
use sha3::{Digest, Keccak256};
use std::sync::Arc;
use wallet_core::domain::{CryptoProvider, MnemonicProvider};
use wallet_core::{Bip39Adapter, Chain, CryptoAdapter, WalletService};

const ABANDON_24: &str = "abandon abandon abandon abandon abandon abandon abandon abandon abandon abandon abandon abandon abandon abandon abandon abandon abandon abandon abandon abandon abandon abandon abandon art";
const ABANDON_12: &str = "abandon abandon abandon abandon abandon abandon abandon abandon abandon abandon abandon about";

fn service() -> WalletService<Bip39Adapter, CryptoAdapter> {
    WalletService::new(Arc::new(Bip39Adapter), Arc::new(CryptoAdapter))
}

fn is_evm_text(a: &str) -> bool {
    a.len() == 42
        && a.starts_with("0x")
        && a[2..].chars().all(|c| c.is_ascii_digit() || ('a'..='f').contains(&c))
}

#[test]
fn every_bip39_length_is_generated_and_imports_back() {
    let service = service();
    for count in [12u8, 15, 18, 21, 24] {
        let wallet = service.create_random_wallet(count).unwrap();
        let words: Vec<&str> = wallet.mnemonic.split(' ').collect();
        assert_eq!(words.len(), count as usize);
        assert!(words.iter().all(|w| !w.is_empty() && w.chars().all(|c| c.is_ascii_lowercase())));
        let again = service.import_wallet(&wallet.mnemonic).unwrap();
        assert_eq!(again.mnemonic, wallet.mnemonic);
    }
}

#[test]
fn other_word_counts_are_refused() {
    let service = service();
    for count in [0u8, 11, 13, 16, 23, 25, 255] {
        assert_eq!(
            service.create_random_wallet(count).unwrap_err(),
            "Invalid word count"
        );
    }
}

#[test]
fn import_reports_checksum_and_word_errors() {
    let service = service();
    let bad_checksum = "abandon abandon abandon abandon abandon abandon abandon abandon abandon abandon abandon abandon";
    assert_eq!(service.import_wallet(bad_checksum).unwrap_err(), "invalid checksum");
    let bad_word = "abandon abandon zzzz abandon abandon abandon abandon abandon abandon abandon abandon about";
    assert_eq!(
        service.import_wallet(bad_word).unwrap_err(),
        "invalid word in phrase with index 2"
    );
    let wallet = service.import_wallet(ABANDON_12).unwrap();
    assert_eq!(wallet.mnemonic, ABANDON_12);
}

#[test]
fn seed_matches_bip39_vector_and_is_64_bytes() {
    let seed = Bip39Adapter.get_seed(ABANDON_12, Some("TREZOR")).unwrap();
    assert_eq!(
        hex::encode(&seed),
        "c55257c360c07c72029aebc1b53c05ed0362ada38ead3e3e9efa3708e53495531f09a6987599d18264c1e1c92f2cf141630c7a3c4ab7c81b2f001698e7463b04"
    );
    assert_eq!(Bip39Adapter.get_seed(ABANDON_24, None).unwrap().len(), 64);
    assert!(Bip39Adapter.get_seed("not a phrase", None).is_err());
    assert!(Bip39Adapter.validate_mnemonic(ABANDON_24).is_ok());
}

#[test]
fn no_pin_is_the_empty_pin() {
    let service = service();
    let wallet = service.import_wallet(ABANDON_24).unwrap();
    for chain in [Chain::Evm, Chain::Solana] {
        assert_eq!(
            service.derive_address(&wallet, chain, None).unwrap(),
            service.derive_address(&wallet, chain, Some("")).unwrap()
        );
    }
    let hash = [7u8; 32];
    assert_eq!(
        service.sign_evm_hash(&wallet, hash, None).unwrap(),
        service.sign_evm_hash(&wallet, hash, Some("")).unwrap()
    );
}

#[test]
fn derived_addresses_have_their_chain_shape() {
    let service = service();
    let wallet = service.import_wallet(ABANDON_24).unwrap();
    let evm = service.derive_address(&wallet, Chain::Evm, Some("1234")).unwrap();
    assert!(is_evm_text(&evm));
    let sol = service.derive_address(&wallet, Chain::Solana, None).unwrap();
    let alphabet = "123456789ABCDEFGHJKLMNPQRSTUVWXYZabcdefghijkmnopqrstuvwxyz";
    assert!(sol.len() >= 32 && sol.len() <= 44);
    assert!(sol.chars().all(|c| alphabet.contains(c)));
    assert_ne!(
        sol,
        service.derive_address(&wallet, Chain::Solana, Some("1234")).unwrap()
    );
}

#[test]
fn signatures_are_deterministic_and_64_bytes() {
    let service = service();
    let wallet = service.import_wallet(ABANDON_24).unwrap();
    let hash = [0x42u8; 32];
    let first = service.sign_evm_hash(&wallet, hash, None).unwrap();
    let second = service.sign_evm_hash(&wallet, hash, None).unwrap();
    assert_eq!(first.len(), 64);
    assert_eq!(first, second);
    let other = service.sign_evm_hash(&wallet, [0x43u8; 32], None).unwrap();
    assert_ne!(first, other);
}

#[test]
fn a_wrong_mnemonic_reaches_no_key() {
    let service = service();
    let wallet = wallet_core::Wallet::new("abandon about".to_string());
    assert!(service.derive_address(&wallet, Chain::Evm, None).is_err());
    assert!(service.sign_evm_hash(&wallet, [0u8; 32], None).is_err());
}

#[test]
fn crypto_adapter_uses_the_first_32_seed_bytes() {
    let mut seed = vec![1u8; 64];
    let a = CryptoAdapter.derive_address(&seed, Chain::Evm).unwrap();
    seed[40] = 9;
    assert_eq!(CryptoAdapter.derive_address(&seed, Chain::Evm).unwrap(), a);
    seed[0] = 2;
    assert_ne!(CryptoAdapter.derive_address(&seed, Chain::Evm).unwrap(), a);
}

#[test]
fn zero_secret_is_refused_for_evm_but_not_solana() {
    let seed = vec![0u8; 64];
    assert_eq!(
        CryptoAdapter.derive_address(&seed, Chain::Evm).unwrap_err(),
        "signature error"
    );
    assert_eq!(
        CryptoAdapter.sign_evm_hash(&seed, [1u8; 32]).unwrap_err(),
        "signature error"
    );
    assert!(CryptoAdapter.derive_address(&seed, Chain::Solana).is_ok());
}

#[test]
fn evm_address_of_secret_one() {
    // The secp256k1 key with secret scalar 1 has the well-known address below.
    let mut seed = vec![0u8; 32];
    seed[31] = 1;
    assert_eq!(
        CryptoAdapter.derive_address(&seed, Chain::Evm).unwrap(),
        "0x7e5f4552091a69125d5dfcb7b8c2659029395bdf"
    );
}

#[test]
fn short_seeds_are_refused_without_panicking() {
    for seed in [vec![], vec![7u8; 16], vec![1u8; 31]] {
        for chain in [Chain::Evm, Chain::Solana] {
            assert_eq!(
                CryptoAdapter.derive_address(&seed, chain).unwrap_err(),
                "Seed must be at least 32 bytes"
            );
        }
        assert_eq!(
            CryptoAdapter.sign_evm_hash(&seed, [3u8; 32]).unwrap_err(),
            "Seed must be at least 32 bytes"
        );
    }
}

#[test]
fn the_hash_is_signed_as_it_stands_by_the_key_of_the_address() {
    let service = service();
    let wallet = service.import_wallet(ABANDON_24).unwrap();
    let hash = [0x5au8; 32];
    let sig = service.sign_evm_hash(&wallet, hash, Some("1234")).unwrap();

    let seed = Bip39Adapter.get_seed(ABANDON_24, Some("1234")).unwrap();
    let key = SigningKey::from_slice(&seed[0..32]).unwrap();
    let verifying = VerifyingKey::from(&key);
    let signature = Signature::from_slice(&sig).unwrap();
    assert!(verifying.verify_prehash(&hash, &signature).is_ok());

    let point = verifying.to_encoded_point(false);
    let mut hasher = Keccak256::new();
    hasher.update(&point.as_bytes()[1..]);
    let digest = hasher.finalize();
    let address = format!("0x{}", hex::encode(&digest[12..]));
    assert_eq!(
        service.derive_address(&wallet, Chain::Evm, Some("1234")).unwrap(),
        address
    );
}
