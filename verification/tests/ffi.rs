use wallet_core::ffi::Wallet;
use wallet_core::Chain;

const ABANDON_24: &str = "abandon abandon abandon abandon abandon abandon abandon abandon abandon abandon abandon abandon abandon abandon abandon abandon abandon abandon abandon abandon abandon abandon abandon art";

#[test]
fn bridge_wallet_from_mnemonic() {
    let wallet = Wallet::from_mnemonic(ABANDON_24.to_string()).unwrap();
    assert_eq!(wallet.get_mnemonic(), ABANDON_24);
    assert_eq!(
        wallet.derive_address(Chain::Evm, None).unwrap(),
        "0xa3611257ea0f2360811a9c44fa6d908939165252"
    );
    assert_eq!(
        wallet.derive_address(Chain::Evm, Some(String::new())).unwrap(),
        "0xa3611257ea0f2360811a9c44fa6d908939165252"
    );
    assert!(Wallet::from_mnemonic("abandon".to_string()).is_err());
}

#[test]
fn bridge_wallet_new_random() {
    let wallet = Wallet::new_random(12).unwrap();
    assert_eq!(wallet.get_mnemonic().split(' ').count(), 12);
    assert!(Wallet::from_mnemonic(wallet.get_mnemonic()).is_ok());
    assert_eq!(Wallet::new_random(10).err().unwrap(), "Invalid word count");
}

#[test]
fn bridge_signing_checks_the_hash_length() {
    let wallet = Wallet::from_mnemonic(ABANDON_24.to_string()).unwrap();
    assert_eq!(
        wallet.sign_evm_hash(vec![1u8; 31], None).unwrap_err(),
        "Message hash must be 32 bytes"
    );
    assert_eq!(
        wallet.sign_evm_hash(vec![1u8; 33], None).unwrap_err(),
        "Message hash must be 32 bytes"
    );
    let sig = wallet.sign_evm_hash(vec![1u8; 32], Some("1234".to_string())).unwrap();
    assert_eq!(sig.len(), 64);
}

#[test]
fn bridge_qr_fragments() {
    let wallet = Wallet::from_mnemonic(ABANDON_24.to_string()).unwrap();
    let parts = wallet
        .encode_qr_fragments(ABANDON_24.as_bytes().to_vec(), "bytes".to_string())
        .unwrap();
    assert_eq!(parts.len(), 1);
    assert!(parts[0].starts_with("ur:bytes/1-1/"));
    assert!(wallet.encode_qr_fragments(vec![], String::new()).is_err());
}
