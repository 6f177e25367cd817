//! Assets, asset identifiers and native coins, modelled as plain data.
//!
//! An asset identifier is either a native denomination or a token
//! contract address; amounts are integers in the asset's smallest unit.
//! Identifiers of different kinds never compare equal, and amounts of
//! different assets are never mixed.

use vstd::prelude::*;

verus! {

/// Mathematical identity of an asset: its kind and its identifier text.
pub struct AssetInfoView {
    pub native: bool,
    pub id: Seq<char>,
}

/// An asset identifier.
#[derive(Clone, Debug, PartialEq, Eq)]
pub enum AssetInfo {
    /// A native coin, named by its denomination.
    NativeToken { denom: String },
    /// A contract-tracked token, named by its contract address.
    Token { contract_addr: String },
}

impl View for AssetInfo {
    type V = AssetInfoView;

    open spec fn view(&self) -> AssetInfoView {
        match self {
            AssetInfo::NativeToken { denom } => AssetInfoView { native: true, id: denom@ },
            AssetInfo::Token { contract_addr } => AssetInfoView {
                native: false,
                id: contract_addr@,
            },
        }
    }
}

impl AssetInfo {
    /// Whether this identifier names a native coin.
    pub fn is_native_token(&self) -> (r: bool)
        ensures
            r == self@.native,
    {
        match self {
            AssetInfo::NativeToken { .. } => true,
            AssetInfo::Token { .. } => false,
        }
    }

    /// Whether the two identifiers name the same asset.
    pub fn eq_info(&self, other: &AssetInfo) -> (r: bool)
        ensures
            r == (self@ == other@),
    {
        match (self, other) {
            (
                AssetInfo::NativeToken { denom: a },
                AssetInfo::NativeToken { denom: b },
            ) => *a == *b,
            (
                AssetInfo::Token { contract_addr: a },
                AssetInfo::Token { contract_addr: b },
            ) => *a == *b,
            _ => false,
        }
    }

    /// A fresh identifier naming the same asset.
    pub fn dup(&self) -> (r: AssetInfo)
        ensures
            r@ == self@,
    {
        match self {
            AssetInfo::NativeToken { denom } => AssetInfo::NativeToken { denom: denom.clone() },
            AssetInfo::Token { contract_addr } => AssetInfo::Token {
                contract_addr: contract_addr.clone(),
            },
        }
    }

    /// The identifier text, as an owned string.
    pub fn id_string(&self) -> (r: String)
        ensures
            r@ == self@.id,
    {
        match self {
            AssetInfo::NativeToken { denom } => denom.clone(),
            AssetInfo::Token { contract_addr } => contract_addr.clone(),
        }
    }

    /// This identifier carrying the given balance.
    pub fn with_balance(&self, amount: u128) -> (r: Asset)
        ensures
            r.info@ == self@,
            r.amount == amount,
    {
        Asset { info: self.dup(), amount }
    }
}

/// An amount of one particular asset.
#[derive(Clone, Debug, PartialEq, Eq)]
pub struct Asset {
    pub info: AssetInfo,
    pub amount: u128,
}

impl Asset {
    /// Whether the carried asset is a native coin.
    pub fn is_native_token(&self) -> (r: bool)
        ensures
            r == self.info@.native,
    {
        self.info.is_native_token()
    }

    /// A fresh asset with the same identity and amount.
    pub fn dup(&self) -> (r: Asset)
        ensures
            r.info@ == self.info@,
            r.amount == self.amount,
    {
        Asset { info: self.info.dup(), amount: self.amount }
    }
}

/// A native coin attached to a message as funds.
#[derive(Clone, Debug, PartialEq, Eq)]
pub struct Coin {
    pub denom: String,
    pub amount: u128,
}

/// The amount of `denom` that a funds list carries: the amount of the
/// first coin of that denomination, or zero when none is present.
pub open spec fn spec_sent_amount(funds: Seq<Coin>, denom: Seq<char>) -> int
    decreases funds.len(),
{
    if funds.len() == 0 {
        0
    } else if funds[0].denom@ == denom {
        funds[0].amount as int
    } else {
        spec_sent_amount(funds.drop_first(), denom)
    }
}

/// Looks up the first coin of the given denomination in a funds list.
pub fn sent_amount(funds: &Vec<Coin>, denom: &String) -> (r: u128)
    ensures
        r == spec_sent_amount(funds@, denom@),
{
    proof {
        assert(funds@.skip(0) =~= funds@);
    }
    let mut i: usize = 0;
    while i < funds.len()
        invariant
            0 <= i <= funds.len(),
            spec_sent_amount(funds@, denom@) == spec_sent_amount(funds@.skip(i as int), denom@),
        decreases funds.len() - i,
    {
        proof {
            assert(funds@.skip(i as int).len() == funds@.len() - i);
            assert(funds@.skip(i as int)[0] == funds@[i as int]);
        }
        if funds[i].denom == *denom {
            return funds[i].amount;
        }
        proof {
            assert(funds@.skip(i as int).drop_first() =~= funds@.skip(i + 1));
        }
        i = i + 1;
    }
    proof {
        assert(funds@.skip(funds@.len() as int).len() == 0);
    }
    0
}

} // verus!
