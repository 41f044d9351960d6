pub mod bip39_adapter;
pub mod crypto_adapter;
pub mod ur_adapter;

pub use bip39_adapter::Bip39Adapter;
pub use crypto_adapter::CryptoAdapter;
pub use ur_adapter::UrAdapter;
