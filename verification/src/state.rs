//! Registered pools, the static route table and the optional factory.
//!
//! Storage is modelled as plain vectors with the invariants the real
//! key-value store provides: pool keys are unique, and at most one route
//! exists per unordered asset pair, so one entry serves both directions.

use vstd::prelude::*;

use crate::asset::Asset;
use crate::asset::AssetInfo;
use crate::asset::AssetInfoView;
use crate::dec::Dec;
use crate::error::ContractError;
use crate::msgs::Call;
use crate::MAX_SPREAD;

verus! {

/// Kind of a pair pool.
#[derive(Clone, Copy, Debug, PartialEq, Eq, Structural)]
pub enum PairType {
    /// Constant-product pool; subject to the optimal-swap derivation.
    Xyk,
    /// Stable pool; assumed balanced, the optimal-swap step skips it.
    Stable,
    /// Any other custom pool kind; treated like constant-product.
    Custom,
}

/// Configuration of one registered pair pool.
#[derive(Clone, Debug)]
pub struct LpConfig {
    /// Address of the pair contract.
    pub pair_contract: String,
    /// The pool's two asset types, in pair order.
    pub asset_infos: Vec<AssetInfo>,
    /// Kind of the pair.
    pub pair_type: PairType,
    /// Trading commission, in basis points.
    pub commission_bps: u64,
    /// Default slippage tolerance when providing liquidity.
    pub slippage_tolerance: Dec,
    /// The canonical asset reward conversions aim for.
    pub wanted_token: AssetInfo,
}

impl LpConfig {
    /// A pool names exactly two distinct assets and a commission below
    /// the full denominator.
    pub open spec fn wf(&self) -> bool {
        &&& self.asset_infos@.len() == 2
        &&& self.asset_infos@[0]@ != self.asset_infos@[1]@
        &&& self.commission_bps < 10000
    }

    /// Whether `info` is one of the pool's two assets.
    pub open spec fn spec_is_pool_asset(&self, info: AssetInfoView) -> bool {
        exists|i: int|
            0 <= i < self.asset_infos@.len() && #[trigger] self.asset_infos@[i]@ == info
    }

    /// Tests membership among the pool's assets.
    pub fn is_pool_asset(&self, info: &AssetInfo) -> (r: bool)
        ensures
            r == self.spec_is_pool_asset(info@),
    {
        let mut i: usize = 0;
        while i < self.asset_infos.len()
            invariant
                0 <= i <= self.asset_infos@.len(),
                forall|j: int| 0 <= j < i ==> #[trigger] self.asset_infos@[j]@ != info@,
            decreases self.asset_infos@.len() - i,
        {
            if self.asset_infos[i].eq_info(info) {
                return true;
            }
            i = i + 1;
        }
        false
    }
}

/// A registered pool, under its liquidity-token key.
#[derive(Clone, Debug)]
pub struct LpEntry {
    pub lp_token: String,
    pub config: LpConfig,
}

/// A static conversion route: the pair contract able to swap between the
/// two assets, keyed by the unordered pair.
#[derive(Clone, Debug)]
pub struct RouteConfig {
    pub asset_x: AssetInfo,
    pub asset_y: AssetInfo,
    pub pair_contract: String,
}

impl RouteConfig {
    /// Whether this route serves the unordered pair `{a, b}`.
    pub open spec fn serves(&self, a: AssetInfoView, b: AssetInfoView) -> bool {
        (self.asset_x@ == a && self.asset_y@ == b) || (self.asset_x@ == b && self.asset_y@
            == a)
    }

    /// Tests whether this route serves `{a, b}`, in either direction.
    pub fn matches_pair(&self, a: &AssetInfo, b: &AssetInfo) -> (r: bool)
        ensures
            r == self.serves(a@, b@),
    {
        (self.asset_x.eq_info(a) && self.asset_y.eq_info(b)) || (self.asset_x.eq_info(b)
            && self.asset_y.eq_info(a))
    }
}

/// Whether some entry of `lps` is keyed by `key`.
pub open spec fn has_lp_key(lps: Seq<LpEntry>, key: Seq<char>) -> bool {
    exists|i: int| 0 <= i < lps.len() && (#[trigger] lps[i].lp_token@) == key
}

/// Index of the entry of `lps` keyed by `key`.
pub open spec fn lp_index_of(lps: Seq<LpEntry>, key: Seq<char>) -> int {
    choose|i: int| 0 <= i < lps.len() && (#[trigger] lps[i].lp_token@) == key
}

/// `lps` with `e` written under its key: replacing the entry that key
/// already has, appended otherwise.
pub open spec fn spec_upsert_lp(lps: Seq<LpEntry>, e: LpEntry) -> Seq<LpEntry> {
    if has_lp_key(lps, e.lp_token@) {
        lps.update(lp_index_of(lps, e.lp_token@), e)
    } else {
        lps.push(e)
    }
}

/// `lps` without the entry keyed by `key`, if any.
pub open spec fn spec_remove_lp(lps: Seq<LpEntry>, key: Seq<char>) -> Seq<LpEntry> {
    if has_lp_key(lps, key) {
        lps.remove(lp_index_of(lps, key))
    } else {
        lps
    }
}

/// Whether some route of `routes` serves the unordered pair `{a, b}`.
pub open spec fn has_route_key(routes: Seq<RouteConfig>, a: AssetInfoView, b: AssetInfoView) -> bool {
    exists|i: int| 0 <= i < routes.len() && (#[trigger] routes[i]).serves(a, b)
}

/// Index of the route of `routes` serving `{a, b}`.
pub open spec fn route_index_of(routes: Seq<RouteConfig>, a: AssetInfoView, b: AssetInfoView) -> int {
    choose|i: int| 0 <= i < routes.len() && (#[trigger] routes[i]).serves(a, b)
}

/// `routes` with `rc` written under its unordered pair: replacing the
/// route that pair already has, appended otherwise.
pub open spec fn spec_upsert_route(routes: Seq<RouteConfig>, rc: RouteConfig) -> Seq<RouteConfig> {
    if has_route_key(routes, rc.asset_x@, rc.asset_y@) {
        routes.update(route_index_of(routes, rc.asset_x@, rc.asset_y@), rc)
    } else {
        routes.push(rc)
    }
}

/// `routes` without the route serving `{a, b}`, if any.
pub open spec fn spec_remove_route(
    routes: Seq<RouteConfig>,
    a: AssetInfoView,
    b: AssetInfoView,
) -> Seq<RouteConfig> {
    if has_route_key(routes, a, b) {
        routes.remove(route_index_of(routes, a, b))
    } else {
        routes
    }
}

/// One route deletion request, naming the pair in either orientation.
#[derive(Clone, Debug)]
pub struct RouteDelete {
    pub from: AssetInfo,
    pub to: AssetInfo,
    /// Kept for interface compatibility; a route serves both directions,
    /// so deleting it always clears both.
    pub both: Option<bool>,
}

/// The administrative configuration update: each part optional, applied
/// in order — factory, pool deletions, pool upserts, route deletions,
/// route insertions.
#[derive(Clone, Debug)]
pub struct UpdateConfig {
    pub factory: Option<String>,
    pub remove_factory: Option<bool>,
    pub upsert_lps: Option<Vec<LpEntry>>,
    pub delete_lps: Option<Vec<String>>,
    pub insert_routes: Option<Vec<RouteConfig>>,
    pub delete_routes: Option<Vec<RouteDelete>>,
}

/// `lps` after deleting each key of `keys`, in order.
pub open spec fn spec_apply_lp_deletes(lps: Seq<LpEntry>, keys: Seq<String>) -> Seq<LpEntry>
    decreases keys.len(),
{
    if keys.len() == 0 {
        lps
    } else {
        spec_remove_lp(spec_apply_lp_deletes(lps, keys.drop_last()), keys.last()@)
    }
}

/// `lps` after writing each entry of `es`, in order.
pub open spec fn spec_apply_lp_upserts(lps: Seq<LpEntry>, es: Seq<LpEntry>) -> Seq<LpEntry>
    decreases es.len(),
{
    if es.len() == 0 {
        lps
    } else {
        spec_upsert_lp(spec_apply_lp_upserts(lps, es.drop_last()), es.last())
    }
}

/// `routes` after deleting each pair of `ds`, in order.
pub open spec fn spec_apply_route_deletes(routes: Seq<RouteConfig>, ds: Seq<RouteDelete>) -> Seq<
    RouteConfig,
>
    decreases ds.len(),
{
    if ds.len() == 0 {
        routes
    } else {
        spec_remove_route(
            spec_apply_route_deletes(routes, ds.drop_last()),
            ds.last().from@,
            ds.last().to@,
        )
    }
}

/// `routes` after writing each route of `rs`, in order.
pub open spec fn spec_apply_route_upserts(routes: Seq<RouteConfig>, rs: Seq<RouteConfig>) -> Seq<
    RouteConfig,
>
    decreases rs.len(),
{
    if rs.len() == 0 {
        routes
    } else {
        spec_upsert_route(spec_apply_route_upserts(routes, rs.drop_last()), rs.last())
    }
}

/// The contract's persistent configuration: owner, optional fallback
/// factory, registered pools and static routes.
#[derive(Clone, Debug)]
pub struct Store {
    pub owner: String,
    pub factory: Option<String>,
    pub lps: Vec<LpEntry>,
    pub routes: Vec<RouteConfig>,
}

impl Store {
    /// Keys are unique, every pool is well-formed, and at most one route
    /// serves any unordered asset pair.
    pub open spec fn wf(&self) -> bool {
        &&& forall|i: int, j: int|
            0 <= i < j < self.lps@.len() ==> (#[trigger] self.lps@[i].lp_token@)
                != (#[trigger] self.lps@[j].lp_token@)
        &&& forall|i: int| 0 <= i < self.lps@.len() ==> (#[trigger] self.lps@[i].config).wf()
        &&& forall|i: int, j: int|
            0 <= i < j < self.routes@.len() ==> !(#[trigger] self.routes@[j].serves(
                self.routes@[i].asset_x@,
                self.routes@[i].asset_y@,
            ))
    }

    /// Whether a pool is registered under `key`.
    pub open spec fn spec_has_lp(&self, key: Seq<char>) -> bool {
        exists|i: int| 0 <= i < self.lps@.len() && (#[trigger] self.lps@[i].lp_token@) == key
    }

    /// Index of the pool registered under `key`.
    pub open spec fn spec_lp_index(&self, key: Seq<char>) -> int {
        choose|i: int| 0 <= i < self.lps@.len() && (#[trigger] self.lps@[i].lp_token@) == key
    }

    /// The pool registered under `key`.
    pub open spec fn spec_lp(&self, key: Seq<char>) -> LpConfig {
        self.lps@[self.spec_lp_index(key)].config
    }

    /// Looks a pool up by its liquidity-token key.
    pub fn get_lp(&self, lp_token: &String) -> (r: Option<&LpConfig>)
        requires
            self.wf(),
        ensures
            r is Some <==> self.spec_has_lp(lp_token@),
            r matches Some(c) ==> *c == self.spec_lp(lp_token@),
    {
        let mut i: usize = 0;
        while i < self.lps.len()
            invariant
                self.wf(),
                0 <= i <= self.lps@.len(),
                forall|j: int| 0 <= j < i ==> (#[trigger] self.lps@[j].lp_token@) != lp_token@,
            decreases self.lps@.len() - i,
        {
            if self.lps[i].lp_token == *lp_token {
                proof {
                    let ii = i as int;
                    assert(self.lps@[ii].lp_token@ == lp_token@);
                    let k = self.spec_lp_index(lp_token@);
                    assert(0 <= k < self.lps@.len() && self.lps@[k].lp_token@ == lp_token@);
                    if k < ii {
                        assert(self.lps@[k].lp_token@ != self.lps@[ii].lp_token@);
                        assert(false);
                    } else if ii < k {
                        assert(self.lps@[ii].lp_token@ != self.lps@[k].lp_token@);
                        assert(false);
                    }
                }
                return Some(&self.lps[i].config);
            }
            i = i + 1;
        }
        None
    }

    /// Whether a static route serves the unordered pair `{a, b}`.
    pub open spec fn spec_has_route(&self, a: AssetInfoView, b: AssetInfoView) -> bool {
        exists|i: int| 0 <= i < self.routes@.len() && (#[trigger] self.routes@[i]).serves(a, b)
    }

    /// Index of the route serving `{a, b}`.
    pub open spec fn spec_route_index(&self, a: AssetInfoView, b: AssetInfoView) -> int {
        choose|i: int| 0 <= i < self.routes@.len() && (#[trigger] self.routes@[i]).serves(a, b)
    }

    /// The route serving `{a, b}`.
    pub open spec fn spec_route(&self, a: AssetInfoView, b: AssetInfoView) -> RouteConfig {
        self.routes@[self.spec_route_index(a, b)]
    }

    /// Looks up the static route for `{from, to}`, serving both
    /// directions with one entry.
    pub fn find_route(&self, from: &AssetInfo, to: &AssetInfo) -> (r: Option<&RouteConfig>)
        requires
            self.wf(),
        ensures
            r is Some <==> self.spec_has_route(from@, to@),
            r matches Some(c) ==> *c == self.spec_route(from@, to@),
    {
        let mut i: usize = 0;
        while i < self.routes.len()
            invariant
                self.wf(),
                0 <= i <= self.routes@.len(),
                forall|j: int| 0 <= j < i ==> !(#[trigger] self.routes@[j]).serves(from@, to@),
            decreases self.routes@.len() - i,
        {
            if self.routes[i].matches_pair(from, to) {
                proof {
                    let ii = i as int;
                    assert(self.routes@[ii].serves(from@, to@));
                    let k = self.spec_route_index(from@, to@);
                    assert(0 <= k < self.routes@.len() && self.routes@[k].serves(from@, to@));
                    if k < ii {
                        assert(!self.routes@[ii].serves(
                            self.routes@[k].asset_x@,
                            self.routes@[k].asset_y@,
                        ));
                        assert(false);
                    } else if ii < k {
                        assert(!self.routes@[k].serves(
                            self.routes@[ii].asset_x@,
                            self.routes@[ii].asset_y@,
                        ));
                        assert(false);
                    }
                }
                return Some(&self.routes[i]);
            }
            i = i + 1;
        }
        None
    }

    /// Finds a swap path for a reward asset: the static route when one is
    /// configured — never the factory in that case — else a swap resolved
    /// through the factory, else a route-not-found error naming both
    /// assets.
    pub fn resolve(&self, reward: &Asset, wanted: &AssetInfo) -> (r: Result<
        Call,
        ContractError,
    >)
        requires
            self.wf(),
        ensures
            r is Ok <==> (self.spec_has_route(reward.info@, wanted@) || self.factory is Some),
            self.spec_has_route(reward.info@, wanted@) ==> (r matches Ok(c) && c matches
                Call::Swap { pair, offer, max_spread } && pair@ == self.spec_route(
                reward.info@,
                wanted@,
            ).pair_contract@ && offer.info@ == reward.info@ && offer.amount == reward.amount
                && max_spread.atomics == MAX_SPREAD * 10_000_000_000_000_000),
            self.factory matches Some(f) ==> (!self.spec_has_route(reward.info@, wanted@) ==> (
            r matches Ok(c) && c matches Call::FactorySwap { factory, offer, ask, max_spread }
                && factory@ == f@ && offer.info@ == reward.info@ && offer.amount
                == reward.amount && ask@ == wanted@ && max_spread.atomics == 50
                * 10_000_000_000_000_000)),
            r matches Err(e) ==> (e matches ContractError::RouteNotFound { from, to } && from@
                == reward.info@.id && to@ == wanted@.id),
    {
        match self.find_route(&reward.info, wanted) {
            Some(route) => Ok(
                Call::Swap {
                    pair: route.pair_contract.clone(),
                    offer: reward.dup(),
                    max_spread: Dec::percent(MAX_SPREAD),
                },
            ),
            None => {
                match &self.factory {
                    Some(factory) => Ok(
                        Call::FactorySwap {
                            factory: factory.clone(),
                            offer: reward.dup(),
                            ask: wanted.dup(),
                            max_spread: Dec::percent(50),
                        },
                    ),
                    None => Err(
                        ContractError::RouteNotFound {
                            from: reward.info.id_string(),
                            to: wanted.id_string(),
                        },
                    ),
                }
            },
        }
    }

    /// Registers a pool under its key, replacing any previous entry.
    pub fn upsert_lp(&mut self, entry: LpEntry)
        requires
            old(self).wf(),
            entry.config.wf(),
        ensures
            final(self).lps@ == spec_upsert_lp(old(self).lps@, entry),
            final(self).routes@ == old(self).routes@,
            final(self).owner == old(self).owner,
            final(self).factory == old(self).factory,
            final(self).wf(),
    {
        let mut i: usize = 0;
        let n = self.lps.len();
        while i < n
            invariant
                self == old(self),
                self.wf(),
                entry.config.wf(),
                n == self.lps@.len(),
                0 <= i <= n,
                forall|j: int| 0 <= j < i ==> (#[trigger] self.lps@[j].lp_token@) != entry.lp_token@,
            decreases n - i,
        {
            if self.lps[i].lp_token == entry.lp_token {
                let ghost lps0 = self.lps@;
                let ghost ii = i as int;
                self.lps.remove(i);
                self.lps.insert(i, entry);
                proof {
                    assert(self.lps@ =~= lps0.update(ii, entry));
                    assert(has_lp_key(lps0, entry.lp_token@));
                    let k = lp_index_of(lps0, entry.lp_token@);
                    assert(0 <= k < lps0.len() && lps0[k].lp_token@ == entry.lp_token@);
                    if k < ii {
                        assert(lps0[k].lp_token@ != lps0[ii].lp_token@);
                        assert(false);
                    } else if ii < k {
                        assert(lps0[ii].lp_token@ != lps0[k].lp_token@);
                        assert(false);
                    }
                    assert forall|a: int, b: int| 0 <= a < b < self.lps@.len() implies (
                    #[trigger] self.lps@[a].lp_token@) != (#[trigger] self.lps@[b].lp_token@) by {
                        assert(lps0[a].lp_token@ != lps0[b].lp_token@);
                    }
                    assert forall|a: int| 0 <= a < self.lps@.len() implies (
                    #[trigger] self.lps@[a].config).wf() by {
                        if a != ii {
                            assert(self.lps@[a] == lps0[a]);
                            assert(lps0[a].config.wf());
                        }
                    }
                }
                return ;
            }
            i = i + 1;
        }
        proof {
            let ghost lps0 = self.lps@;
            if has_lp_key(lps0, entry.lp_token@) {
                let k = lp_index_of(lps0, entry.lp_token@);
                assert(0 <= k < lps0.len() && lps0[k].lp_token@ == entry.lp_token@);
                assert(false);
            }
        }
        let ghost lps0 = self.lps@;
        self.lps.push(entry);
        proof {
            assert forall|a: int, b: int| 0 <= a < b < self.lps@.len() implies (
            #[trigger] self.lps@[a].lp_token@) != (#[trigger] self.lps@[b].lp_token@) by {
                if b < lps0.len() {
                    assert(lps0[a].lp_token@ != lps0[b].lp_token@);
                } else {
                    assert(self.lps@[b] == entry);
                    assert(lps0[a].lp_token@ != entry.lp_token@);
                }
            }
        }
    }

    /// Deletes the pool registered under `key`, if any.
    pub fn remove_lp(&mut self, key: &String)
        requires
            old(self).wf(),
        ensures
            final(self).lps@ == spec_remove_lp(old(self).lps@, key@),
            final(self).routes@ == old(self).routes@,
            final(self).owner == old(self).owner,
            final(self).factory == old(self).factory,
            final(self).wf(),
    {
        let mut i: usize = 0;
        let n = self.lps.len();
        while i < n
            invariant
                self == old(self),
                self.wf(),
                n == self.lps@.len(),
                0 <= i <= n,
                forall|j: int| 0 <= j < i ==> (#[trigger] self.lps@[j].lp_token@) != key@,
            decreases n - i,
        {
            if self.lps[i].lp_token == *key {
                let ghost lps0 = self.lps@;
                let ghost ii = i as int;
                self.lps.remove(i);
                proof {
                    assert(has_lp_key(lps0, key@));
                    let k = lp_index_of(lps0, key@);
                    assert(0 <= k < lps0.len() && lps0[k].lp_token@ == key@);
                    if k < ii {
                        assert(lps0[k].lp_token@ != lps0[ii].lp_token@);
                        assert(false);
                    } else if ii < k {
                        assert(lps0[ii].lp_token@ != lps0[k].lp_token@);
                        assert(false);
                    }
                    assert forall|a: int, b: int| 0 <= a < b < self.lps@.len() implies (
                    #[trigger] self.lps@[a].lp_token@) != (#[trigger] self.lps@[b].lp_token@) by {
                        let a0 = if a < ii {
                            a
                        } else {
                            a + 1
                        };
                        let b0 = if b < ii {
                            b
                        } else {
                            b + 1
                        };
                        assert(self.lps@[a] == lps0[a0]);
                        assert(self.lps@[b] == lps0[b0]);
                        assert(lps0[a0].lp_token@ != lps0[b0].lp_token@);
                    }
                }
                return ;
            }
            i = i + 1;
        }
        proof {
            if has_lp_key(self.lps@, key@) {
                let k = lp_index_of(self.lps@, key@);
                assert(0 <= k < self.lps@.len() && self.lps@[k].lp_token@ == key@);
                assert(false);
            }
        }
    }

    /// Registers a route under its unordered pair, replacing any route
    /// that pair already had.
    pub fn upsert_route(&mut self, rc: RouteConfig)
        requires
            old(self).wf(),
        ensures
            final(self).routes@ == spec_upsert_route(old(self).routes@, rc),
            final(self).lps@ == old(self).lps@,
            final(self).owner == old(self).owner,
            final(self).factory == old(self).factory,
            final(self).wf(),
    {
        let mut i: usize = 0;
        let n = self.routes.len();
        while i < n
            invariant
                self == old(self),
                self.wf(),
                n == self.routes@.len(),
                0 <= i <= n,
                forall|j: int|
                    0 <= j < i ==> !(#[trigger] self.routes@[j]).serves(rc.asset_x@, rc.asset_y@),
            decreases n - i,
        {
            if self.routes[i].matches_pair(&rc.asset_x, &rc.asset_y) {
                let ghost rs0 = self.routes@;
                let ghost ii = i as int;
                self.routes.remove(i);
                self.routes.insert(i, rc);
                proof {
                    assert(self.routes@ =~= rs0.update(ii, rc));
                    assert(has_route_key(rs0, rc.asset_x@, rc.asset_y@));
                    let k = route_index_of(rs0, rc.asset_x@, rc.asset_y@);
                    assert(0 <= k < rs0.len() && rs0[k].serves(rc.asset_x@, rc.asset_y@));
                    if k < ii {
                        assert(!rs0[ii].serves(rs0[k].asset_x@, rs0[k].asset_y@));
                        assert(false);
                    } else if ii < k {
                        assert(!rs0[k].serves(rs0[ii].asset_x@, rs0[ii].asset_y@));
                        assert(false);
                    }
                    assert forall|a: int, b: int| 0 <= a < b < self.routes@.len() implies !(#[trigger] self.routes@[b].serves(
                        self.routes@[a].asset_x@,
                        self.routes@[a].asset_y@,
                    )) by {
                        assert(!rs0[b].serves(rs0[a].asset_x@, rs0[a].asset_y@));
                        if a == ii {
                            assert(rs0[ii].serves(rc.asset_x@, rc.asset_y@));
                        }
                        if b == ii {
                            assert(rs0[ii].serves(rc.asset_x@, rc.asset_y@));
                        }
                    }
                }
                return ;
            }
            i = i + 1;
        }
        proof {
            if has_route_key(self.routes@, rc.asset_x@, rc.asset_y@) {
                let k = route_index_of(self.routes@, rc.asset_x@, rc.asset_y@);
                assert(0 <= k < self.routes@.len() && self.routes@[k].serves(
                    rc.asset_x@,
                    rc.asset_y@,
                ));
                assert(false);
            }
        }
        let ghost rs0 = self.routes@;
        self.routes.push(rc);
        proof {
            assert forall|a: int, b: int| 0 <= a < b < self.routes@.len() implies !(#[trigger] self.routes@[b].serves(
                self.routes@[a].asset_x@,
                self.routes@[a].asset_y@,
            )) by {
                if b < rs0.len() {
                    assert(!rs0[b].serves(rs0[a].asset_x@, rs0[a].asset_y@));
                } else {
                    assert(self.routes@[b] == rc);
                    assert(!rs0[a].serves(rc.asset_x@, rc.asset_y@));
                }
            }
        }
    }

    /// Deletes the route serving the unordered pair `{from, to}`, if any.
    pub fn remove_route(&mut self, from: &AssetInfo, to: &AssetInfo)
        requires
            old(self).wf(),
        ensures
            final(self).routes@ == spec_remove_route(old(self).routes@, from@, to@),
            final(self).lps@ == old(self).lps@,
            final(self).owner == old(self).owner,
            final(self).factory == old(self).factory,
            final(self).wf(),
    {
        let mut i: usize = 0;
        let n = self.routes.len();
        while i < n
            invariant
                self == old(self),
                self.wf(),
                n == self.routes@.len(),
                0 <= i <= n,
                forall|j: int| 0 <= j < i ==> !(#[trigger] self.routes@[j]).serves(from@, to@),
            decreases n - i,
        {
            if self.routes[i].matches_pair(from, to) {
                let ghost rs0 = self.routes@;
                let ghost ii = i as int;
                self.routes.remove(i);
                proof {
                    assert(has_route_key(rs0, from@, to@));
                    let k = route_index_of(rs0, from@, to@);
                    assert(0 <= k < rs0.len() && rs0[k].serves(from@, to@));
                    if k < ii {
                        assert(!rs0[ii].serves(rs0[k].asset_x@, rs0[k].asset_y@));
                        assert(false);
                    } else if ii < k {
                        assert(!rs0[k].serves(rs0[ii].asset_x@, rs0[ii].asset_y@));
                        assert(false);
                    }
                    assert forall|a: int, b: int| 0 <= a < b < self.routes@.len() implies !(#[trigger] self.routes@[b].serves(
                        self.routes@[a].asset_x@,
                        self.routes@[a].asset_y@,
                    )) by {
                        let a0 = if a < ii {
                            a
                        } else {
                            a + 1
                        };
                        let b0 = if b < ii {
                            b
                        } else {
                            b + 1
                        };
                        assert(self.routes@[a] == rs0[a0]);
                        assert(self.routes@[b] == rs0[b0]);
                        assert(!rs0[b0].serves(rs0[a0].asset_x@, rs0[a0].asset_y@));
                    }
                }
                return ;
            }
            i = i + 1;
        }
        proof {
            if has_route_key(self.routes@, from@, to@) {
                let k = route_index_of(self.routes@, from@, to@);
                assert(0 <= k < self.routes@.len() && self.routes@[k].serves(from@, to@));
                assert(false);
            }
        }
    }
}

} // verus!
