//! Errors surfaced by the compounding engine.

use vstd::prelude::*;

verus! {

/// Why a compounding step refused to proceed.
#[derive(Clone, Debug, PartialEq, Eq)]
pub enum ContractError {
    /// An intermediate product left the 256-bit domain, or a narrowed
    /// result left the 128-bit domain.
    Overflow,
    /// A deferred step was invoked by anyone but the contract itself.
    Unauthorized,
    /// No static route and no factory could convert `from` into `to`.
    RouteNotFound { from: String, to: String },
    /// The pool identifier is not registered.
    LpNotFound { lp_token: String },
    /// A queried balance fell below the recorded snapshot.
    NegativeDelta,
    /// The funds sent along do not match a declared native deposit.
    NativeBalanceMismatch { denom: String },
}

impl ContractError {
    /// A short, stable description of the error kind.
    pub fn kind(&self) -> &'static str {
        match self {
            ContractError::Overflow => "overflow",
            ContractError::Unauthorized => "unauthorized",
            ContractError::RouteNotFound { .. } => "route not found",
            ContractError::LpNotFound { .. } => "lp not found",
            ContractError::NegativeDelta => "negative delta",
            ContractError::NativeBalanceMismatch { .. } => "native balance mismatch",
        }
    }
}

} // verus!
