//! Rebalancing and position-lifecycle logic for a concentrated-liquidity savings vault.
use vstd::prelude::*;

pub mod bytes;
pub mod decimal;
pub mod solver;
pub mod assets;
pub mod error;
pub mod actions;
pub mod reply;
pub mod coordinator;
pub mod args;
pub mod paging;
pub mod contract_state;

verus! {

} // verus!
