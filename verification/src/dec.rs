//! Fixed-point decimals with 18 fractional digits.
//!
//! Commissions and slippage tolerances travel as such decimals on the
//! host chain.  Here a decimal is its count of atomic units, a plain
//! integer that contracts can compute with exactly.

use vstd::prelude::*;

verus! {

/// Atomic units per whole unit: `10^18`.
pub const DEC_DENOM: u128 = 1_000_000_000_000_000_000;

/// A non-negative fixed-point decimal: `atomics / 10^18`.
#[derive(Clone, Copy, Debug, PartialEq, Eq, Structural)]
pub struct Dec {
    pub atomics: u128,
}

impl Dec {
    /// The decimal `0`.
    pub fn zero() -> (r: Dec)
        ensures
            r.atomics == 0,
    {
        Dec { atomics: 0 }
    }

    /// The decimal `p / 100`.
    pub fn percent(p: u64) -> (r: Dec)
        ensures
            r.atomics == p * 10_000_000_000_000_000,
    {
        Dec { atomics: (p as u128) * 10_000_000_000_000_000 }
    }

    /// The decimal `bps / 10000`.
    pub fn from_bps(bps: u64) -> (r: Dec)
        ensures
            r.atomics == bps * 100_000_000_000_000,
    {
        Dec { atomics: (bps as u128) * 100_000_000_000_000 }
    }

    /// The larger of the two decimals.
    pub fn max_of(self, other: Dec) -> (r: Dec)
        ensures
            r.atomics == if self.atomics >= other.atomics {
                self.atomics
            } else {
                other.atomics
            },
    {
        if self.atomics >= other.atomics {
            self
        } else {
            other
        }
    }
}

} // verus!
