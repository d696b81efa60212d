//! Signer recovery for ECDSA signatures over secp256k1, with the checks that
//! reject malleable encodings and degenerate recoveries.
pub mod evm;

use vstd::prelude::*;
use crate::evm::ecdsa::ECDSA;

verus! {

/// The contract's state: the signature recoverer, and a probe entry point.
pub struct Playground {
    pub ecdsa: ECDSA,
}

impl Playground {
    /// A probe entry point; it always answers zero.
    pub fn test(&self) -> (r: u64)
        ensures
            r == 0,
    {
        0
    }
}

} // verus!
