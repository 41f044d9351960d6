# wallet_core

The core of an airgapped hardware wallet: BIP-39 mnemonics (12 to 24 words,
optional passphrase), EVM and Solana address derivation, EVM hash signing, and
UR fragments for QR codes. Every function in `src/` carries a contract. Verus
proves the contracts of the library's own functions; the small trusted items
that call the outside crates are believed, and each one's doc comment says
what it claims.

- `src/domain`: the wallet, the chains and the ports (`MnemonicProvider`,
  `CryptoProvider`, `AirgapProvider`) with their contracts.
- `src/infrastructure`: the adapters over `tiny-bip39`, `k256`, `ed25519-dalek`,
  `sha3`, `hex`, `bs58` and `ur`; each call into those crates stands behind a
  small trusted item whose doc comment says what it claims.
- `src/application`: `WalletService`, and the laws that tie its operations together.
- `src/ffi.rs`: the wallet as the mobile bindings see it.
- `src/tui.rs`: the terminal application's decisions, as a state machine with an
  invariant.
- `app/`: the terminal program (drawing, key reading) and the UniFFI bindings.
