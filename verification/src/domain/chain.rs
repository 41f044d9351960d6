use vstd::prelude::*;

verus! {

/// The blockchains for which the wallet derives addresses.
#[derive(Clone, Copy, Debug, PartialEq, Eq, Structural)]
pub enum Chain {
    /// Ethereum and the other EVM chains (secp256k1 keys, Keccak-256 addresses).
    Evm,
    /// Solana (Ed25519 keys, base58 addresses).
    Solana,
}

} // verus!
