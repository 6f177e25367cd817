//! Interface types of the automation service that drives compounding on
//! a schedule: where rewards come from, and when an execution may run.
//!
//! These are plain data carried across the service boundary; the engine
//! itself does not schedule.

use vstd::prelude::*;

verus! {

/// Where an execution draws its rewards from.
#[derive(Clone, Debug, PartialEq, Eq)]
pub enum Source {
    /// Claim staking rewards.
    Claim,
    /// Collect generator rewards of the listed liquidity tokens.
    AstroRewards { lps: Vec<String> },
}

impl Source {
    /// The source's stable name, used as an attribute value.
    pub fn as_name(&self) -> &'static str {
        match self {
            Source::Claim => "claim",
            Source::AstroRewards { .. } => "astro_rewards",
        }
    }
}

/// When an execution may run: from `start` (or at once), then every
/// `interval_s` seconds.
#[derive(Clone, Copy, Debug, PartialEq, Eq, Structural)]
pub struct Schedule {
    pub start: Option<u64>,
    pub interval_s: u64,
}

/// A migration carries no arguments.
#[derive(Clone, Copy, Debug, PartialEq, Eq, Structural)]
pub struct MigrateMsg {}

} // verus!
