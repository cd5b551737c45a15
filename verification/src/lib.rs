//! Verified state machines of the Astera protocol contracts: role-based
//! multisig access control, token-weighted governance, referral rewards,
//! invoice-funding auctions with collateral sales, and juror arbitration.
//!
//! Each contract is a plain value holding what the contract keeps in
//! storage; its entry points are methods from (state, caller, ledger time,
//! arguments) to the next state and the outside work the host must do
//! (token transfers, cross-contract calls). A failed entry point leaves the
//! state unchanged, as the host rolls back a failed invocation.
use vstd::prelude::*;

pub mod access_control;
pub mod arbitration;
pub mod arith;
pub mod assoc;
pub mod auction;
pub mod calls;
pub mod governance;
pub mod ranking;
pub mod referral;

verus! {

} // verus!
