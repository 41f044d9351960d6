//! Core of an airgapped hardware wallet: BIP-39 mnemonics, EVM and Solana
//! address derivation, EVM hash signing and UR (QR) encoding, arranged as ports
//! (`domain`), adapters (`infrastructure`) and the service that drives them
//! (`application`).
pub mod airgap;
pub mod application;
pub mod domain;
pub mod ffi;
pub mod infrastructure;
pub mod tui;

pub use application::WalletService;
pub use domain::{Chain, Wallet};
pub use infrastructure::{Bip39Adapter, CryptoAdapter, UrAdapter};
