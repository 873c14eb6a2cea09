//! An algorithmic-stablecoin core: a fungible ledger ("cash", "bond" and
//! "share" instances), a price oracle, a fixed-point unit helper, a
//! `Boardroom` that distributes seigniorage to stakers through an
//! append-only snapshot history, and a `Treasury` that issues and redeems
//! bonds and mints seigniorage when the cash price is above its ceiling.
//!
//! Every operation takes its environment (the caller's address, the current
//! period and timestamp) and its collaborators (ledgers, oracle, boardroom)
//! as explicit arguments, and either commits all of its state changes and
//! returns the event it gives rise to, or changes nothing and reports the
//! reason as an error value.
use vstd::prelude::*;

pub mod account_map;
pub mod asset;
pub mod boardroom;
pub mod distributor;
pub mod guard;
pub mod oracle;
pub mod tokenstub;
pub mod treasure;
pub mod treasury;
pub mod util;

verus! {

/// An account address. Contract and user accounts are identified by plain
/// integers; `0` is the reserved null address, which the staking and
/// deposit operations refuse as a caller.
pub type AccountId = u128;

/// A token amount.
pub type Balance = u128;

} // verus!
