use vstd::prelude::*;

verus! {

/// The wallet's state: its mnemonic phrase.
#[derive(Clone, Debug)]
pub struct Wallet {
    pub mnemonic: String,
}

impl Wallet {
    /// A wallet holding `mnemonic`.
    pub fn new(mnemonic: String) -> (wallet: Self)
        ensures
            wallet.mnemonic@ == mnemonic@,
    {
        Self { mnemonic }
    }
}

} // verus!
