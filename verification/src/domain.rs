pub mod chain;
pub mod crypto;
pub mod wallet;

pub use chain::Chain;
pub use crypto::{AirgapProvider, CryptoProvider, MnemonicProvider};
pub use wallet::Wallet;
