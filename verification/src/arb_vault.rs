//! Interface types of the arbitrage vault, a collaborator of the
//! compounding engine: which liquid-staking providers it may unbond
//! through, and the hook its liquidity token sends back.
//!
//! The vault's own bookkeeping lives outside this crate; these types
//! only shape the data exchanged with it.

use vstd::prelude::*;

verus! {

/// A liquid-staking provider: its protocol family, hub address and token
/// contract.  `T` is the address representation.
#[derive(Clone, Debug, PartialEq, Eq)]
pub enum LsdType<T> {
    Eris { addr: T, cw20: T },
    Backbone { addr: T, cw20: T },
    Stader { addr: T, cw20: T },
    Prism { addr: T, cw20: T },
}

/// A configured liquid-staking provider, possibly disabled.
#[derive(Clone, Debug, PartialEq, Eq)]
pub struct LsdConfig<T> {
    pub disabled: bool,
    pub lsd_type: LsdType<T>,
}

/// Hook message carried by a liquidity-token transfer into the vault.
#[derive(Clone, Copy, Debug, PartialEq, Eq, Structural)]
pub enum Cw20HookMsg {
    /// Queue the sent liquidity tokens for withdrawal.
    Unbond { immediate: Option<bool> },
}

/// Per-user query payload; the vault derives everything from storage.
#[derive(Clone, Copy, Debug, PartialEq, Eq, Structural)]
pub struct UserDetails {}

/// A migration carries no arguments.
#[derive(Clone, Copy, Debug, PartialEq, Eq, Structural)]
pub struct MigrateMsg {}

} // verus!
