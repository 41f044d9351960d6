pub mod wallet_service;

pub use wallet_service::WalletService;
