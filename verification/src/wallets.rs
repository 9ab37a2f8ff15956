//! Wallets found in a wallet directory.
use vstd::prelude::*;

verus! {

/// A wallet: its name and the path of its key file.
#[derive(Clone, Debug, PartialEq, Eq)]
pub struct WalletDescriptor {
    pub name: String,
    pub path: String,
}

impl WalletDescriptor {
    pub fn new(name: String, path: String) -> (w: Self)
        ensures
            w.name@ == name@,
            w.path@ == path@,
    {
        WalletDescriptor { name, path }
    }
}

} // verus!
