//! The engine's message surface: call context, deferred steps, and the
//! external calls it asks the host to dispatch.
//!
//! A deferred step carries everything the later execution needs as
//! payload; nothing about "which step we are on" is kept in storage.

use vstd::prelude::*;

use crate::asset::Asset;
use crate::asset::AssetInfo;
use crate::asset::Coin;
use crate::dec::Dec;

verus! {

/// Ambient context of one invocation: the contract's own address and the
/// current block height.
#[derive(Clone, Debug)]
pub struct Env {
    pub contract_addr: String,
    pub block_height: u64,
}

/// Who invoked the contract, and the native funds sent along.
#[derive(Clone, Debug)]
pub struct MessageInfo {
    pub sender: String,
    pub funds: Vec<Coin>,
}

/// A deferred, self-addressed step of one compounding operation.
#[derive(Clone, Debug, PartialEq, Eq)]
pub enum CallbackMsg {
    /// Balance the contract's two pool-asset holdings with one optimal
    /// swap through the pair.
    OptimalSwap { lp_token: String },
    /// Deposit everything that arrived since the snapshot as liquidity.
    ProvideLiquidity {
        prev_balances: Vec<Asset>,
        slippage_tolerance: Option<Dec>,
        receiver: String,
        lp_token: String,
    },
}

/// An external call the engine queues; the host dispatches the queued
/// calls strictly in order, each completing before the next begins.
#[derive(Clone, Debug, PartialEq, Eq)]
pub enum Call {
    /// Pull a pre-authorized token deposit from its owner.
    TransferFrom { token: String, owner: String, recipient: String, amount: u128 },
    /// Swap `offer` through the pair contract `pair`.
    Swap { pair: String, offer: Asset, max_spread: Dec },
    /// Have the factory resolve a pair for `(offer, ask)` and swap
    /// through it.
    FactorySwap { factory: String, offer: Asset, ask: AssetInfo, max_spread: Dec },
    /// Grant the pair a short-lived allowance for a token deposit.
    IncreaseAllowance { token: String, spender: String, amount: u128, expires_at_height: u64 },
    /// Deposit the listed amounts as liquidity, native parts as funds.
    ProvideLiquidity {
        pair: String,
        assets: Vec<Asset>,
        slippage_tolerance: Dec,
        receiver: String,
        funds: Vec<Coin>,
    },
    /// A self-addressed deferred step.
    Callback { contract: String, msg: CallbackMsg },
}

} // verus!
