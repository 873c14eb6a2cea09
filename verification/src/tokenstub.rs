//! A stand-in for an external stablecoin ledger (the aUSD token) that
//! the distributor accepts deposits in. It fixes the error vocabulary of
//! that interface; any concrete fungible ledger, such as [`crate::asset::Asset`],
//! plays the role in executable code.
use vstd::prelude::*;

verus! {

/// The error values of the external token interface.
#[derive(Debug, Clone, Copy, PartialEq, Eq, Structural)]
pub enum Error {
    /// Returned if not enough balance is available for a request.
    InsufficientBalance,
    /// Returned if not enough allowance is available for a request.
    InsufficientAllowance,
    /// Returned if a value is invalid.
    InvalidValue,
}

/// The placeholder handle for the external token. It carries no state of
/// its own; the token's ledger lives outside this system.
pub struct TokenStub {}

impl TokenStub {
    pub fn new() -> (t: TokenStub) {
        TokenStub {  }
    }
}

} // verus!
