use std::sync::Arc;
use wallet_core::{Bip39Adapter, Chain, CryptoAdapter, WalletService};

#[test]
fn test_hexagonal_wallet() {
    let bip39 = Arc::new(Bip39Adapter);
    let crypto = Arc::new(CryptoAdapter);
    let service = WalletService::new(bip39, crypto);

    let wallet = service.create_random_wallet(24).unwrap();
    assert_eq!(wallet.mnemonic.split_whitespace().count(), 24);
    let evm_address = service.derive_address(&wallet, Chain::Evm, None).unwrap();
    let sol_address = service
        .derive_address(&wallet, Chain::Solana, None)
        .unwrap();

    assert!(evm_address.starts_with("0x"));
    assert!(sol_address.len() >= 32);
}

#[test]
fn test_pin_derivation() {
    let bip39 = Arc::new(Bip39Adapter);
    let crypto = Arc::new(CryptoAdapter);
    let service = WalletService::new(bip39, crypto);

    let phrase = "abandon abandon abandon abandon abandon abandon abandon abandon abandon abandon abandon abandon abandon abandon abandon abandon abandon abandon abandon abandon abandon abandon abandon art";
    let wallet = service.import_wallet(phrase).unwrap();

    // No PIN
    let addr_no_pin = service.derive_address(&wallet, Chain::Evm, None).unwrap();
    // PIN 1234
    let addr_pin_1 = service
        .derive_address(&wallet, Chain::Evm, Some("1234"))
        .unwrap();
    // PIN 5678
    let addr_pin_2 = service
        .derive_address(&wallet, Chain::Evm, Some("5678"))
        .unwrap();

    assert_ne!(addr_no_pin, addr_pin_1);
    assert_ne!(addr_pin_1, addr_pin_2);
    assert_eq!(addr_no_pin, "0xa3611257ea0f2360811a9c44fa6d908939165252");
}
