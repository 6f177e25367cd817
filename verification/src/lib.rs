//! Reward-compounding and optimal two-sided swap engine for a
//! constant-product automated market maker.
//!
//! The crate models the pool, its configuration and the message flow as
//! plain data, and proves the numeric derivation of the optimal swap, the
//! route resolution and the balance-delta accounting against exact
//! contracts.  The only unverified pieces are small wrappers around the
//! 256-bit integer arithmetic of `cosmwasm_std`.

use vstd::prelude::*;

pub mod ampz;
pub mod arb_vault;
pub mod asset;
pub mod dec;
pub mod error;
pub mod execute;
pub mod intsqrt;
pub mod msgs;
pub mod pool_math;
pub mod state;
pub mod wide;

verus! {

/// Basis-point denominator used by every commission computation.
pub const COMMISSION_DENOM: u64 = 10000;

/// Spread ceiling, in percent, for swaps over a configured static route.
pub const MAX_SPREAD: u64 = 10;

} // verus!
