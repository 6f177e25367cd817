//! The compounding orchestrator: entry point, deferred steps, and the
//! optimal-swap driver.
//!
//! Each function computes from the values the host has already queried
//! (the contract's own holdings, the pair's reserves) and returns the
//! ordered list of external calls to dispatch; nothing here performs I/O.

use vstd::prelude::*;

use crate::asset::Asset;
use crate::asset::AssetInfo;
use crate::asset::AssetInfoView;
use crate::asset::Coin;
use crate::asset::sent_amount;
use crate::asset::spec_sent_amount;
use crate::dec::Dec;
use crate::error::ContractError;
use crate::msgs::Call;
use crate::msgs::CallbackMsg;
use crate::msgs::Env;
use crate::msgs::MessageInfo;
use crate::pool_math::get_swap_amount;
use crate::pool_math::simulate;
use crate::pool_math::spec_sim_return;
use crate::pool_math::spec_swap_amount;
use crate::pool_math::swap_amount_in_range;
use crate::state::LpConfig;
use crate::state::PairType;
use crate::state::Store;
use crate::state::UpdateConfig;
use crate::state::spec_apply_lp_deletes;
use crate::state::spec_apply_lp_upserts;
use crate::state::spec_apply_route_deletes;
use crate::state::spec_apply_route_upserts;
use crate::wide::u128_bound;
use crate::wide::u256_bound;
use crate::wide::w256_from_u128;
use crate::wide::w256_lt;
use crate::wide::w256_mul;
use crate::MAX_SPREAD;

verus! {

/// Commission rate in decimal atomics for a commission in basis points.
pub open spec fn spec_rate(bps: int) -> int {
    bps * 100_000_000_000_000
}

/// `c` is a swap of `amount` of asset `info` through the pair `pair`,
/// capped at the static spread ceiling.
pub open spec fn is_pair_swap(c: Call, pair: Seq<char>, info: AssetInfoView, amount: int) -> bool {
    c matches Call::Swap { pair: p, offer, max_spread } && p@ == pair && offer.info@ == info
        && offer.amount == amount && max_spread.atomics == MAX_SPREAD * 10_000_000_000_000_000
}

/// The optimal-swap derivation stays in range on whichever side is in
/// excess (trivially true when the areas tie).
pub open spec fn calc_swap_ok(aa: int, ab: int, pa: int, pb: int, bps: int) -> bool {
    if aa * pb > ab * pa {
        swap_amount_in_range(aa, ab, pa, pb, bps) && spec_swap_amount(aa, ab, pa, pb, bps)
            < u128_bound()
    } else if ab * pa > aa * pb {
        swap_amount_in_range(ab, aa, pb, pa, bps) && spec_swap_amount(ab, aa, pb, pa, bps)
            < u128_bound()
    } else {
        true
    }
}

/// A swap of asset `a` is emitted: side `a` is in excess, its derived
/// swap amount is positive, and so is the simulated return.
pub open spec fn calc_swap_emits_a(aa: int, ab: int, pa: int, pb: int, bps: int) -> bool {
    &&& aa * pb > ab * pa
    &&& calc_swap_ok(aa, ab, pa, pb, bps)
    &&& spec_swap_amount(aa, ab, pa, pb, bps) > 0
    &&& spec_sim_return(pa, pb, spec_swap_amount(aa, ab, pa, pb, bps), spec_rate(bps)) > 0
}

/// A swap of asset `b` is emitted, symmetrically.
pub open spec fn calc_swap_emits_b(aa: int, ab: int, pa: int, pb: int, bps: int) -> bool {
    &&& ab * pa > aa * pb
    &&& calc_swap_ok(aa, ab, pa, pb, bps)
    &&& spec_swap_amount(ab, aa, pb, pa, bps) > 0
    &&& spec_sim_return(pb, pa, spec_swap_amount(ab, aa, pb, pa, bps), spec_rate(bps)) > 0
}

/// How `calculate_optimal_swap` extends the message list: one swap call
/// for the excess side when it emits one, nothing otherwise.
pub open spec fn calc_swap_msgs(
    lp: LpConfig,
    a_info: AssetInfoView,
    b_info: AssetInfoView,
    aa: int,
    ab: int,
    pa: int,
    pb: int,
    old_msgs: Seq<Call>,
    new_msgs: Seq<Call>,
) -> bool {
    let bps = lp.commission_bps as int;
    if calc_swap_emits_a(aa, ab, pa, pb, bps) {
        &&& new_msgs.len() == old_msgs.len() + 1
        &&& new_msgs.take(old_msgs.len() as int) == old_msgs
        &&& is_pair_swap(
            new_msgs.last(),
            lp.pair_contract@,
            a_info,
            spec_swap_amount(aa, ab, pa, pb, bps),
        )
    } else if calc_swap_emits_b(aa, ab, pa, pb, bps) {
        &&& new_msgs.len() == old_msgs.len() + 1
        &&& new_msgs.take(old_msgs.len() as int) == old_msgs
        &&& is_pair_swap(
            new_msgs.last(),
            lp.pair_contract@,
            b_info,
            spec_swap_amount(ab, aa, pb, pa, bps),
        )
    } else {
        new_msgs == old_msgs
    }
}

/// Balanced provisional areas emit no swap: when
/// `amount_a * pool_b == amount_b * pool_a` the derivation is trivially
/// in range and neither side is swapped.
pub proof fn lemma_balanced_pools_no_swap(aa: int, ab: int, pa: int, pb: int, bps: int)
    requires
        aa * pb == ab * pa,
    ensures
        calc_swap_ok(aa, ab, pa, pb, bps),
        !calc_swap_emits_a(aa, ab, pa, pb, bps),
        !calc_swap_emits_b(aa, ab, pa, pb, bps),
{
}

/// The swap, if any, goes from the excess side into the other, never the
/// reverse: a larger `a`-area rules out a swap of asset `b`, and a larger
/// `b`-area rules out a swap of asset `a`.
pub proof fn lemma_swap_direction(aa: int, ab: int, pa: int, pb: int, bps: int)
    ensures
        aa * pb > ab * pa ==> !calc_swap_emits_b(aa, ab, pa, pb, bps),
        ab * pa > aa * pb ==> !calc_swap_emits_a(aa, ab, pa, pb, bps),
{
}

/// Decides which provisional deposit is in relative excess, derives the
/// optimal swap for that side, and — when both the swap amount and its
/// simulated return are positive — appends the corresponding swap call.
/// Returns `(swap_a, swap_b, return_a, return_b)`: exactly one side ever
/// swaps, ties swap nothing, and an overflow in the derivation aborts
/// with the message list untouched.
pub fn calculate_optimal_swap(
    lp_config: &LpConfig,
    asset_a: &Asset,
    asset_b: &Asset,
    pool_a_amount: u128,
    pool_b_amount: u128,
    messages: &mut Vec<Call>,
) -> (r: Result<(u128, u128, u128, u128), ContractError>)
    requires
        lp_config.wf(),
    ensures
        r is Ok <==> calc_swap_ok(
            asset_a.amount as int,
            asset_b.amount as int,
            pool_a_amount as int,
            pool_b_amount as int,
            lp_config.commission_bps as int,
        ),
        r matches Err(e) ==> e is Overflow && final(messages)@ == old(messages)@,
        r matches Ok(t) ==> ({
            let aa = asset_a.amount as int;
            let ab = asset_b.amount as int;
            let pa = pool_a_amount as int;
            let pb = pool_b_amount as int;
            let bps = lp_config.commission_bps as int;
            &&& t.0 == (if calc_swap_emits_a(aa, ab, pa, pb, bps) {
                spec_swap_amount(aa, ab, pa, pb, bps)
            } else {
                0
            })
            &&& t.1 == (if calc_swap_emits_b(aa, ab, pa, pb, bps) {
                spec_swap_amount(ab, aa, pb, pa, bps)
            } else {
                0
            })
            &&& t.2 == (if calc_swap_emits_b(aa, ab, pa, pb, bps) {
                spec_sim_return(pb, pa, spec_swap_amount(ab, aa, pb, pa, bps), spec_rate(bps))
            } else {
                0
            })
            &&& t.3 == (if calc_swap_emits_a(aa, ab, pa, pb, bps) {
                spec_sim_return(pa, pb, spec_swap_amount(aa, ab, pa, pb, bps), spec_rate(bps))
            } else {
                0
            })
            &&& t.0 <= asset_a.amount
            &&& t.1 <= asset_b.amount
        }),
        calc_swap_msgs(
            *lp_config,
            asset_a.info@,
            asset_b.info@,
            asset_a.amount as int,
            asset_b.amount as int,
            pool_a_amount as int,
            pool_b_amount as int,
            old(messages)@,
            final(messages)@,
        ),
{
    let w_aa = w256_from_u128(asset_a.amount);
    let w_ab = w256_from_u128(asset_b.amount);
    let w_pa = w256_from_u128(pool_a_amount);
    let w_pb = w256_from_u128(pool_b_amount);
    proof {
        assert(u128_bound() * u128_bound() == u256_bound()) by (nonlinear_arith);
        assert(w_aa@ * w_pb@ < u256_bound() && w_ab@ * w_pa@ < u256_bound())
            by (nonlinear_arith)
            requires
                0 <= w_aa@ < u128_bound(),
                0 <= w_pb@ < u128_bound(),
                0 <= w_ab@ < u128_bound(),
                0 <= w_pa@ < u128_bound(),
                u128_bound() * u128_bound() == u256_bound(),
        ;
    }
    let area_a = match w256_mul(&w_aa, &w_pb) {
        Some(v) => v,
        None => {
            return Err(ContractError::Overflow);
        },
    };
    let area_b = match w256_mul(&w_ab, &w_pa) {
        Some(v) => v,
        None => {
            return Err(ContractError::Overflow);
        },
    };

    if w256_lt(&area_b, &area_a) {
        proof {
            assert(pool_b_amount > 0) by (nonlinear_arith)
                requires
                    asset_a.amount as int * pool_b_amount as int > asset_b.amount as int
                        * pool_a_amount as int,
                    0 <= asset_b.amount as int * pool_a_amount as int || (0
                        <= asset_b.amount && 0 <= pool_a_amount),
                    0 <= asset_a.amount,
                    0 <= pool_b_amount,
            ;
        }
        let swap_amount = match get_swap_amount(
            asset_a.amount,
            asset_b.amount,
            pool_a_amount,
            pool_b_amount,
            lp_config.commission_bps,
        ) {
            Ok(s) => s,
            Err(e) => {
                return Err(e);
            },
        };
        if swap_amount == 0 {
            return Ok((0, 0, 0, 0));
        }
        let return_b = match simulate(
            pool_a_amount,
            pool_b_amount,
            swap_amount,
            Dec::from_bps(lp_config.commission_bps),
        ) {
            Ok(v) => v,
            Err(e) => {
                return Err(e);
            },
        };
        if return_b == 0 {
            return Ok((0, 0, 0, 0));
        }
        let ghost before = messages@;
        messages.push(
            Call::Swap {
                pair: lp_config.pair_contract.clone(),
                offer: Asset { info: asset_a.info.dup(), amount: swap_amount },
                max_spread: Dec::percent(MAX_SPREAD),
            },
        );
        proof {
            assert(messages@.take(before.len() as int) =~= before);
        }
        Ok((swap_amount, 0, 0, return_b))
    } else if w256_lt(&area_a, &area_b) {
        proof {
            assert(pool_a_amount > 0) by (nonlinear_arith)
                requires
                    asset_b.amount as int * pool_a_amount as int > asset_a.amount as int
                        * pool_b_amount as int,
                    0 <= asset_a.amount,
                    0 <= pool_b_amount,
                    0 <= asset_b.amount,
                    0 <= pool_a_amount,
            ;
        }
        let swap_amount = match get_swap_amount(
            asset_b.amount,
            asset_a.amount,
            pool_b_amount,
            pool_a_amount,
            lp_config.commission_bps,
        ) {
            Ok(s) => s,
            Err(e) => {
                return Err(e);
            },
        };
        if swap_amount == 0 {
            return Ok((0, 0, 0, 0));
        }
        let return_a = match simulate(
            pool_b_amount,
            pool_a_amount,
            swap_amount,
            Dec::from_bps(lp_config.commission_bps),
        ) {
            Ok(v) => v,
            Err(e) => {
                return Err(e);
            },
        };
        if return_a == 0 {
            return Ok((0, 0, 0, 0));
        }
        let ghost before = messages@;
        messages.push(
            Call::Swap {
                pair: lp_config.pair_contract.clone(),
                offer: Asset { info: asset_b.info.dup(), amount: swap_amount },
                max_spread: Dec::percent(MAX_SPREAD),
            },
        );
        proof {
            assert(messages@.take(before.len() as int) =~= before);
        }
        Ok((0, swap_amount, return_a, 0))
    } else {
        Ok((0, 0, 0, 0))
    }
}

/// Outcome of the deferred optimal-swap step: stable pools and empty
/// holdings are a no-op; otherwise the derivation runs against the live
/// reserves and emits at most one swap call.
pub open spec fn optimal_swap_post(
    store: Store,
    lp_token: Seq<char>,
    balances: Seq<Asset>,
    reserves: Seq<u128>,
    r: Result<Vec<Call>, ContractError>,
) -> bool {
    if !store.spec_has_lp(lp_token) {
        r matches Err(e) && e is LpNotFound
    } else {
        let lp = store.spec_lp(lp_token);
        let aa = balances[0].amount as int;
        let ab = balances[1].amount as int;
        let pa = reserves[0] as int;
        let pb = reserves[1] as int;
        let bps = lp.commission_bps as int;
        if lp.pair_type is Stable {
            r matches Ok(v) && v@.len() == 0
        } else if aa == 0 && ab == 0 {
            r matches Ok(v) && v@.len() == 0
        } else if calc_swap_ok(aa, ab, pa, pb, bps) {
            r matches Ok(v) && calc_swap_msgs(
                lp,
                balances[0].info@,
                balances[1].info@,
                aa,
                ab,
                pa,
                pb,
                Seq::empty(),
                v@,
            )
        } else {
            r matches Err(e) && e is Overflow
        }
    }
}

/// Deferred step: balances the contract's two pool-asset holdings with
/// one optimal swap through the pair, skipping stable pools and empty
/// holdings.  `balances` are the contract's own holdings of the two pool
/// assets and `reserves` the pair's current reserves, both in pair order.
pub fn optimal_swap(
    store: &Store,
    lp_token: &String,
    balances: &Vec<Asset>,
    reserves: &Vec<u128>,
) -> (r: Result<Vec<Call>, ContractError>)
    requires
        store.wf(),
        balances@.len() == 2,
        reserves@.len() == 2,
    ensures
        optimal_swap_post(*store, lp_token@, balances@, reserves@, r),
{
    let lp = match store.get_lp(lp_token) {
        Some(l) => l,
        None => {
            return Err(ContractError::LpNotFound { lp_token: lp_token.clone() });
        },
    };
    let mut messages: Vec<Call> = Vec::new();
    proof {
        assert(messages@ =~= Seq::<Call>::empty());
    }
    if lp.pair_type == PairType::Stable {
        return Ok(messages);
    }
    if balances[0].amount == 0 && balances[1].amount == 0 {
        return Ok(messages);
    }
    match calculate_optimal_swap(
        lp,
        &balances[0],
        &balances[1],
        reserves[0],
        reserves[1],
        &mut messages,
    ) {
        Ok(_) => Ok(messages),
        Err(e) => Err(e),
    }
}

/// The snapshot amount recorded for `info`: the amount of the last
/// snapshot entry carrying that asset, or zero when none does.
pub open spec fn spec_prev_amount(prev: Seq<Asset>, info: AssetInfoView) -> int
    decreases prev.len(),
{
    if prev.len() == 0 {
        0
    } else if prev.last().info@ == info {
        prev.last().amount as int
    } else {
        spec_prev_amount(prev.drop_last(), info)
    }
}

/// Looks up the snapshot amount recorded for `info`.
fn prev_amount(prev: &Vec<Asset>, info: &AssetInfo) -> (r: u128)
    ensures
        r == spec_prev_amount(prev@, info@),
{
    let mut amt: u128 = 0;
    let mut i: usize = 0;
    proof {
        assert(prev@.take(0) =~= Seq::<Asset>::empty());
    }
    while i < prev.len()
        invariant
            0 <= i <= prev@.len(),
            amt == spec_prev_amount(prev@.take(i as int), info@),
        decreases prev@.len() - i,
    {
        if prev[i].info.eq_info(info) {
            amt = prev[i].amount;
        }
        proof {
            assert(prev@.take(i + 1).drop_last() =~= prev@.take(i as int));
            assert(prev@.take(i + 1).last() == prev@[i as int]);
        }
        i = i + 1;
    }
    proof {
        assert(prev@.take(prev@.len() as int) =~= prev@);
    }
    amt
}

/// `c` grants the pair a token allowance expiring right after `height`.
pub open spec fn is_allowance(
    c: Call,
    token: Seq<char>,
    spender: Seq<char>,
    amount: int,
    height: int,
) -> bool {
    c matches Call::IncreaseAllowance { token: t, spender: s, amount: a, expires_at_height: h }
        && t@ == token && s@ == spender && a == amount && h == height
}

/// The tolerance actually applied: the larger of the caller's and the
/// pool's default, or the default alone when the caller gave none.
pub open spec fn spec_slippage(st: Option<Dec>, def: Dec) -> int {
    match st {
        Some(d) => if d.atomics >= def.atomics {
            d.atomics as int
        } else {
            def.atomics as int
        },
        None => def.atomics as int,
    }
}

/// Outcome of the deferred provide-liquidity step: each deposit amount is
/// exactly the current holding less the snapshot amount — no rounding —
/// with token deposits preceded by a one-block allowance grant and native
/// deposits attached as funds; a holding below its snapshot aborts.
pub open spec fn provide_liquidity_post(
    store: Store,
    height: int,
    prev: Seq<Asset>,
    receiver: Seq<char>,
    st: Option<Dec>,
    lp_token: Seq<char>,
    balances: Seq<Asset>,
    r: Result<Vec<Call>, ContractError>,
) -> bool {
    if !store.spec_has_lp(lp_token) {
        r matches Err(e) && e is LpNotFound
    } else {
        let lp = store.spec_lp(lp_token);
        let p0 = spec_prev_amount(prev, balances[0].info@);
        let p1 = spec_prev_amount(prev, balances[1].info@);
        if p0 > balances[0].amount || p1 > balances[1].amount {
            r matches Err(e) && e is NegativeDelta
        } else {
            let d0 = balances[0].amount - p0;
            let d1 = balances[1].amount - p1;
            let alw0 = d0 > 0 && !balances[0].info@.native;
            let alw1 = d1 > 0 && !balances[1].info@.native;
            let fnd0 = d0 > 0 && balances[0].info@.native;
            let fnd1 = d1 > 0 && balances[1].info@.native;
            let n_allow: int = (if alw0 {
                1int
            } else {
                0
            }) + (if alw1 {
                1int
            } else {
                0
            });
            r matches Ok(v) && {
                &&& v@.len() == n_allow + 1
                &&& alw0 ==> is_allowance(
                    v@[0],
                    balances[0].info@.id,
                    lp.pair_contract@,
                    d0,
                    height + 1,
                )
                &&& alw1 ==> is_allowance(
                    v@[if alw0 {
                        1int
                    } else {
                        0
                    }],
                    balances[1].info@.id,
                    lp.pair_contract@,
                    d1,
                    height + 1,
                )
                &&& v@.last() matches Call::ProvideLiquidity {
                    pair,
                    assets,
                    slippage_tolerance,
                    receiver: rc,
                    funds,
                } && pair@ == lp.pair_contract@ && assets@.len() == 2 && assets@[0].info@
                    == balances[0].info@ && assets@[0].amount == d0 && assets@[1].info@
                    == balances[1].info@ && assets@[1].amount == d1
                    && slippage_tolerance.atomics == spec_slippage(st, lp.slippage_tolerance)
                    && rc@ == receiver && funds@.len() == ((if fnd0 {
                    1int
                } else {
                    0
                }) + (if fnd1 {
                    1int
                } else {
                    0
                })) && (fnd0 ==> funds@[0].denom@ == balances[0].info@.id && funds@[0].amount
                    == d0) && (fnd1 ==> funds@[if fnd0 {
                    1int
                } else {
                    0
                }].denom@ == balances[1].info@.id && funds@[if fnd0 {
                    1int
                } else {
                    0
                }].amount == d1)
            }
        }
    }
}

/// Deferred step: deposits exactly what arrived since the snapshot.  For
/// each pool asset the amount is the current holding minus the recorded
/// snapshot amount; a negative delta is a consistency violation and
/// aborts.  Token amounts get an allowance grant valid only for the next
/// block; native amounts ride along as funds on the final call.
pub fn provide_liquidity(
    store: &Store,
    env: &Env,
    prev_balances: &Vec<Asset>,
    receiver: String,
    slippage_tolerance: Option<Dec>,
    lp_token: &String,
    balances: &Vec<Asset>,
) -> (r: Result<Vec<Call>, ContractError>)
    requires
        store.wf(),
        balances@.len() == 2,
        env.block_height < u64::MAX,
    ensures
        provide_liquidity_post(
            *store,
            env.block_height as int,
            prev_balances@,
            receiver@,
            slippage_tolerance,
            lp_token@,
            balances@,
            r,
        ),
{
    let lp = match store.get_lp(lp_token) {
        Some(l) => l,
        None => {
            return Err(ContractError::LpNotFound { lp_token: lp_token.clone() });
        },
    };

    let p0 = prev_amount(prev_balances, &balances[0].info);
    let p1 = prev_amount(prev_balances, &balances[1].info);
    if p0 > balances[0].amount || p1 > balances[1].amount {
        return Err(ContractError::NegativeDelta);
    }
    let d0 = balances[0].amount - p0;
    let d1 = balances[1].amount - p1;

    let mut messages: Vec<Call> = Vec::new();
    let mut funds: Vec<Coin> = Vec::new();
    let mut provide_assets: Vec<Asset> = Vec::new();

    provide_assets.push(balances[0].info.with_balance(d0));
    if d0 > 0 {
        if balances[0].info.is_native_token() {
            funds.push(Coin { denom: balances[0].info.id_string(), amount: d0 });
        } else {
            messages.push(
                Call::IncreaseAllowance {
                    token: balances[0].info.id_string(),
                    spender: lp.pair_contract.clone(),
                    amount: d0,
                    expires_at_height: env.block_height + 1,
                },
            );
        }
    }
    provide_assets.push(balances[1].info.with_balance(d1));
    if d1 > 0 {
        if balances[1].info.is_native_token() {
            funds.push(Coin { denom: balances[1].info.id_string(), amount: d1 });
        } else {
            messages.push(
                Call::IncreaseAllowance {
                    token: balances[1].info.id_string(),
                    spender: lp.pair_contract.clone(),
                    amount: d1,
                    expires_at_height: env.block_height + 1,
                },
            );
        }
    }

    let slip = match slippage_tolerance {
        Some(d) => d.max_of(lp.slippage_tolerance),
        None => lp.slippage_tolerance,
    };
    messages.push(
        Call::ProvideLiquidity {
            pair: lp.pair_contract.clone(),
            assets: provide_assets,
            slippage_tolerance: slip,
            receiver,
            funds,
        },
    );
    Ok(messages)
}

/// `c` pulls a pre-authorized deposit of `amount` of token `token` from
/// `owner` to `recipient`.
pub open spec fn is_transfer_from(
    c: Call,
    token: Seq<char>,
    owner: Seq<char>,
    recipient: Seq<char>,
    amount: int,
) -> bool {
    c matches Call::TransferFrom { token: t, owner: o, recipient: rc, amount: a } && t@ == token
        && o@ == owner && rc@ == recipient && a == amount
}

/// `c` converts reward `r` towards the pool's wanted asset: through the
/// static route when one serves the pair — never the factory then — and
/// through the configured factory otherwise.
pub open spec fn is_route_swap(store: Store, lp: LpConfig, r: Asset, c: Call) -> bool {
    if store.spec_has_route(r.info@, lp.wanted_token@) {
        is_pair_swap(
            c,
            store.spec_route(r.info@, lp.wanted_token@).pair_contract@,
            r.info@,
            r.amount as int,
        )
    } else {
        store.factory matches Some(f) && c matches Call::FactorySwap {
            factory,
            offer,
            ask,
            max_spread,
        } && factory@ == f@ && offer.info@ == r.info@ && offer.amount == r.amount && ask@
            == lp.wanted_token@ && max_spread.atomics == 50 * 10_000_000_000_000_000
    }
}

/// A conversion path exists for reward `r`: it already is a pool asset,
/// a static route serves it, or a factory is configured.
pub open spec fn reward_resolvable(store: Store, lp: LpConfig, r: Asset) -> bool {
    ||| lp.spec_is_pool_asset(r.info@)
    ||| store.spec_has_route(r.info@, lp.wanted_token@)
    ||| store.factory is Some
}

/// A native reward's declared amount matches the funds actually sent.
pub open spec fn reward_deposit_ok(r: Asset, funds: Seq<Coin>) -> bool {
    r.info@.native ==> spec_sent_amount(funds, r.info@.id) == r.amount
}

/// Every reward can be deposited and converted.
pub open spec fn rewards_ok(store: Store, lp: LpConfig, rewards: Seq<Asset>, funds: Seq<
    Coin,
>) -> bool {
    forall|i: int|
        0 <= i < rewards.len() ==> reward_resolvable(store, lp, #[trigger] rewards[i])
            && reward_deposit_ok(rewards[i], funds)
}

/// How many calls one reward contributes: a transfer-from unless it is
/// native, plus a conversion swap unless it already is a pool asset.
pub open spec fn reward_call_count(lp: LpConfig, r: Asset) -> int {
    (if r.info@.native {
        0int
    } else {
        1
    }) + (if lp.spec_is_pool_asset(r.info@) {
        0int
    } else {
        1
    })
}

/// The calls contributed by one reward: its deposit pull first, then its
/// conversion swap.
pub open spec fn reward_calls_ok(
    store: Store,
    lp: LpConfig,
    r: Asset,
    sender: Seq<char>,
    contract: Seq<char>,
    msgs: Seq<Call>,
) -> bool {
    &&& msgs.len() == reward_call_count(lp, r)
    &&& !r.info@.native ==> is_transfer_from(msgs[0], r.info@.id, sender, contract, r.amount as int)
    &&& !lp.spec_is_pool_asset(r.info@) ==> is_route_swap(store, lp, r, msgs[msgs.len() - 1])
}

/// The calls contributed by a reward list, in list order.
pub open spec fn rewards_calls_ok(
    store: Store,
    lp: LpConfig,
    rewards: Seq<Asset>,
    sender: Seq<char>,
    contract: Seq<char>,
    msgs: Seq<Call>,
) -> bool
    decreases rewards.len(),
{
    if rewards.len() == 0 {
        msgs.len() == 0
    } else {
        let r = rewards.last();
        let k = reward_call_count(lp, r);
        &&& msgs.len() >= k
        &&& rewards_calls_ok(store, lp, rewards.drop_last(), sender, contract, msgs.take(
            msgs.len() - k,
        ))
        &&& reward_calls_ok(store, lp, r, sender, contract, msgs.skip(msgs.len() - k))
    }
}

proof fn lemma_rewards_calls_ok_push(
    store: Store,
    lp: LpConfig,
    rewards: Seq<Asset>,
    r: Asset,
    sender: Seq<char>,
    contract: Seq<char>,
    msgs: Seq<Call>,
    delta: Seq<Call>,
)
    requires
        rewards_calls_ok(store, lp, rewards, sender, contract, msgs),
        reward_calls_ok(store, lp, r, sender, contract, delta),
    ensures
        rewards_calls_ok(store, lp, rewards.push(r), sender, contract, msgs + delta),
{
    let s2 = rewards.push(r);
    let m2 = msgs + delta;
    assert(s2.drop_last() =~= rewards);
    assert(s2.last() == r);
    assert(m2.take(m2.len() - delta.len()) =~= msgs);
    assert(m2.skip(m2.len() - delta.len()) =~= delta);
}

/// The amount of native reward already deposited synchronously for
/// `info`: the amount of the last native reward of that asset (a later
/// declaration of the same denomination supersedes an earlier one).
pub open spec fn spec_native_sub(rewards: Seq<Asset>, info: AssetInfoView) -> int
    decreases rewards.len(),
{
    if rewards.len() == 0 {
        0
    } else if rewards.last().info@ == info && info.native {
        rewards.last().amount as int
    } else {
        spec_native_sub(rewards.drop_last(), info)
    }
}

/// The whole synchronous phase succeeds iff every reward can be deposited
/// and converted and the snapshot subtraction stays non-negative.
pub open spec fn compound_ok(
    store: Store,
    lp: LpConfig,
    rewards: Seq<Asset>,
    funds: Seq<Coin>,
    balances: Seq<Asset>,
) -> bool {
    &&& rewards_ok(store, lp, rewards, funds)
    &&& spec_native_sub(rewards, balances[0].info@) <= balances[0].amount
    &&& spec_native_sub(rewards, balances[1].info@) <= balances[1].amount
}

/// Entry point of one compounding operation, the synchronous phase.
///
/// Queues, in order: for each reward its deposit pull and conversion
/// swap; unless `no_swap` is set, the deferred optimal-swap step; and the
/// deferred provide-liquidity step carrying the snapshot — the contract's
/// queried holdings less the native rewards that settled in this very
/// call.  All or nothing: any unresolvable reward, mismatched native
/// deposit or impossible snapshot aborts with no calls at all.
/// `balances` are the contract's queried holdings of the two pool assets.
pub fn compound(
    store: &Store,
    env: &Env,
    info: &MessageInfo,
    rewards: &Vec<Asset>,
    receiver: String,
    no_swap: Option<bool>,
    slippage_tolerance: Option<Dec>,
    lp_token: &String,
    balances: &Vec<Asset>,
) -> (r: Result<Vec<Call>, ContractError>)
    requires
        store.wf(),
        balances@.len() == 2,
    ensures
        !store.spec_has_lp(lp_token@) <==> (r matches Err(e) && e is LpNotFound),
        store.spec_has_lp(lp_token@) ==> (r is Ok <==> compound_ok(
            *store,
            store.spec_lp(lp_token@),
            rewards@,
            info.funds@,
            balances@,
        )),
        r matches Err(e) ==> (e is LpNotFound || e is RouteNotFound || e
            is NativeBalanceMismatch || e is Overflow),
        r matches Ok(v) ==> ({
            let lp = store.spec_lp(lp_token@);
            let ncb: int = if no_swap == Some(true) {
                1
            } else {
                2
            };
            &&& v@.len() >= ncb
            &&& rewards_calls_ok(
                *store,
                lp,
                rewards@,
                info.sender@,
                env.contract_addr@,
                v@.take(v@.len() - ncb),
            )
            &&& no_swap != Some(true) ==> (v@[v@.len() - 2] matches Call::Callback {
                contract,
                msg,
            } && contract@ == env.contract_addr@ && (msg matches CallbackMsg::OptimalSwap {
                lp_token: t,
            } && t@ == lp_token@))
            &&& v@.last() matches Call::Callback { contract, msg } && contract@
                == env.contract_addr@ && (msg matches CallbackMsg::ProvideLiquidity {
                prev_balances,
                slippage_tolerance: st,
                receiver: rcv,
                lp_token: t,
            } && prev_balances@.len() == 2 && prev_balances@[0].info@ == balances@[0].info@
                && prev_balances@[0].amount == balances@[0].amount - spec_native_sub(
                rewards@,
                balances@[0].info@,
            ) && prev_balances@[1].info@ == balances@[1].info@ && prev_balances@[1].amount
                == balances@[1].amount - spec_native_sub(rewards@, balances@[1].info@) && st
                == slippage_tolerance && rcv@ == receiver@ && t@ == lp_token@)
        }),
{
    let lp = match store.get_lp(lp_token) {
        Some(l) => l,
        None => {
            return Err(ContractError::LpNotFound { lp_token: lp_token.clone() });
        },
    };

    let mut msgs: Vec<Call> = Vec::new();
    let mut nat0: u128 = 0;
    let mut nat1: u128 = 0;
    let mut i: usize = 0;
    proof {
        assert(rewards@.take(0) =~= Seq::<Asset>::empty());
        assert(msgs@ =~= Seq::<Call>::empty());
    }
    while i < rewards.len()
        invariant
            store.wf(),
            store.spec_has_lp(lp_token@),
            *lp == store.spec_lp(lp_token@),
            lp.wf(),
            balances@.len() == 2,
            0 <= i <= rewards@.len(),
            rewards_calls_ok(
                *store,
                *lp,
                rewards@.take(i as int),
                info.sender@,
                env.contract_addr@,
                msgs@,
            ),
            rewards_ok(*store, *lp, rewards@.take(i as int), info.funds@),
            nat0 == spec_native_sub(rewards@.take(i as int), balances@[0].info@),
            nat1 == spec_native_sub(rewards@.take(i as int), balances@[1].info@),
        decreases rewards@.len() - i,
    {
        let ghost pre = msgs@;
        let ghost taken = rewards@.take(i as int);
        let reward = &rewards[i];
        let is_nat = reward.info.is_native_token();
        if is_nat {
            let denom = reward.info.id_string();
            let sent = sent_amount(&info.funds, &denom);
            if sent != reward.amount {
                proof {
                    assert(!reward_deposit_ok(rewards@[i as int], info.funds@));
                    assert(!rewards_ok(*store, *lp, rewards@, info.funds@));
                }
                return Err(ContractError::NativeBalanceMismatch { denom });
            }
        } else {
            msgs.push(
                Call::TransferFrom {
                    token: reward.info.id_string(),
                    owner: info.sender.clone(),
                    recipient: env.contract_addr.clone(),
                    amount: reward.amount,
                },
            );
        }
        let pool_asset = lp.is_pool_asset(&reward.info);
        if !pool_asset {
            match store.resolve(reward, &lp.wanted_token) {
                Ok(c) => {
                    msgs.push(c);
                },
                Err(e) => {
                    proof {
                        assert(!reward_resolvable(*store, *lp, rewards@[i as int]));
                        assert(!rewards_ok(*store, *lp, rewards@, info.funds@));
                    }
                    return Err(e);
                },
            }
        }
        if is_nat {
            if reward.info.eq_info(&balances[0].info) {
                nat0 = reward.amount;
            }
            if reward.info.eq_info(&balances[1].info) {
                nat1 = reward.amount;
            }
        }
        proof {
            let delta = msgs@.skip(pre.len() as int);
            assert(msgs@.take(pre.len() as int) =~= pre);
            assert(reward_calls_ok(
                *store,
                *lp,
                rewards@[i as int],
                info.sender@,
                env.contract_addr@,
                delta,
            ));
            lemma_rewards_calls_ok_push(
                *store,
                *lp,
                taken,
                rewards@[i as int],
                info.sender@,
                env.contract_addr@,
                pre,
                delta,
            );
            assert(taken.push(rewards@[i as int]) =~= rewards@.take(i + 1));
            assert(pre + delta =~= msgs@);
            assert(rewards@.take(i + 1).drop_last() =~= taken);
            assert(rewards@.take(i + 1).last() == rewards@[i as int]);
            assert forall|j: int| 0 <= j < i + 1 implies reward_resolvable(
                *store,
                *lp,
                #[trigger] rewards@.take(i + 1)[j],
            ) && reward_deposit_ok(rewards@.take(i + 1)[j], info.funds@) by {
                if j < i {
                    assert(rewards@.take(i + 1)[j] == taken[j]);
                    assert(reward_resolvable(*store, *lp, taken[j]) && reward_deposit_ok(
                        taken[j],
                        info.funds@,
                    ));
                } else {
                    assert(rewards@.take(i + 1)[j] == rewards@[i as int]);
                }
            }
        }
        i = i + 1;
    }
    proof {
        assert(rewards@.take(rewards@.len() as int) =~= rewards@);
    }

    let ghost reward_msgs = msgs@;
    let flag = match no_swap {
        Some(b) => b,
        None => false,
    };
    if !flag {
        msgs.push(
            Call::Callback {
                contract: env.contract_addr.clone(),
                msg: CallbackMsg::OptimalSwap { lp_token: lp_token.clone() },
            },
        );
    }

    if nat0 > balances[0].amount || nat1 > balances[1].amount {
        return Err(ContractError::Overflow);
    }
    let p0 = balances[0].amount - nat0;
    let p1 = balances[1].amount - nat1;
    let mut prev: Vec<Asset> = Vec::new();
    prev.push(balances[0].info.with_balance(p0));
    prev.push(balances[1].info.with_balance(p1));

    msgs.push(
        Call::Callback {
            contract: env.contract_addr.clone(),
            msg: CallbackMsg::ProvideLiquidity {
                prev_balances: prev,
                slippage_tolerance,
                receiver,
                lp_token: lp_token.clone(),
            },
        },
    );
    proof {
        let n = msgs@.len() as int;
        let ncb: int = if no_swap == Some(true) {
            1
        } else {
            2
        };
        assert(msgs@.take(n - ncb) =~= reward_msgs);
    }
    Ok(msgs)
}

/// The synchronous phase is all or nothing: one unresolvable reward —
/// no pool membership, no static route, no factory — refuses the whole
/// operation, so `compound` returns an error and emits no calls at all.
pub proof fn lemma_compound_all_or_nothing(
    store: Store,
    lp: LpConfig,
    rewards: Seq<Asset>,
    funds: Seq<Coin>,
    balances: Seq<Asset>,
    i: int,
)
    requires
        0 <= i < rewards.len(),
        !reward_resolvable(store, lp, rewards[i]),
    ensures
        !compound_ok(store, lp, rewards, funds, balances),
{
    assert(!(reward_resolvable(store, lp, rewards[i]) && reward_deposit_ok(rewards[i], funds)));
}

/// Dispatches a deferred step.  Only the contract itself may trigger
/// one: any other sender is rejected, and this is the sole access
/// control of the two deferred steps.
pub fn handle_callback(
    store: &Store,
    env: &Env,
    info: &MessageInfo,
    msg: CallbackMsg,
    balances: &Vec<Asset>,
    reserves: &Vec<u128>,
) -> (r: Result<Vec<Call>, ContractError>)
    requires
        store.wf(),
        balances@.len() == 2,
        reserves@.len() == 2,
        env.block_height < u64::MAX,
    ensures
        (info.sender@ != env.contract_addr@) <==> (r matches Err(e) && e is Unauthorized),
        info.sender@ == env.contract_addr@ ==> match msg {
            CallbackMsg::OptimalSwap { lp_token } => optimal_swap_post(
                *store,
                lp_token@,
                balances@,
                reserves@,
                r,
            ),
            CallbackMsg::ProvideLiquidity {
                prev_balances,
                slippage_tolerance,
                receiver,
                lp_token,
            } => provide_liquidity_post(
                *store,
                env.block_height as int,
                prev_balances@,
                receiver@,
                slippage_tolerance,
                lp_token@,
                balances@,
                r,
            ),
        },
{
    if !(info.sender == env.contract_addr) {
        return Err(ContractError::Unauthorized);
    }
    match msg {
        CallbackMsg::OptimalSwap { lp_token } => optimal_swap(store, &lp_token, balances, reserves),
        CallbackMsg::ProvideLiquidity {
            prev_balances,
            slippage_tolerance,
            receiver,
            lp_token,
        } => provide_liquidity(
            store,
            env,
            &prev_balances,
            receiver,
            slippage_tolerance,
            &lp_token,
            balances,
        ),
    }
}

/// The items of an optional list, empty when absent.
pub open spec fn spec_opt_items<T>(o: Option<Vec<T>>) -> Seq<T> {
    match o {
        Some(v) => v@,
        None => Seq::empty(),
    }
}

/// Applies an administrative configuration update: only the owner may;
/// the factory is set or cleared as requested, then pool deletions, pool
/// upserts, route deletions and route insertions apply in order, each an
/// exact fold over the request lists.
pub fn update_config(store: &mut Store, sender: &String, msg: UpdateConfig) -> (r: Result<
    (),
    ContractError,
>)
    requires
        old(store).wf(),
        msg.upsert_lps matches Some(v) ==> forall|i: int|
            0 <= i < v@.len() ==> (#[trigger] v@[i].config).wf(),
    ensures
        (sender@ != old(store).owner@) <==> (r matches Err(e) && e is Unauthorized),
        sender@ != old(store).owner@ ==> *final(store) == *old(store),
        sender@ == old(store).owner@ ==> ({
            &&& r is Ok
            &&& final(store).wf()
            &&& final(store).owner == old(store).owner
            &&& (msg.factory is Some ==> final(store).factory == msg.factory)
            &&& (msg.factory is None && msg.remove_factory == Some(true)
                ==> final(store).factory is None)
            &&& (msg.factory is None && msg.remove_factory != Some(true) ==> final(store).factory
                == old(store).factory)
            &&& final(store).lps@ == spec_apply_lp_upserts(
                spec_apply_lp_deletes(old(store).lps@, spec_opt_items(msg.delete_lps)),
                spec_opt_items(msg.upsert_lps),
            )
            &&& final(store).routes@ == spec_apply_route_upserts(
                spec_apply_route_deletes(old(store).routes@, spec_opt_items(msg.delete_routes)),
                spec_opt_items(msg.insert_routes),
            )
        }),
{
    if !(*sender == store.owner) {
        return Err(ContractError::Unauthorized);
    }
    let UpdateConfig { factory, remove_factory, upsert_lps, delete_lps, insert_routes, delete_routes } =
        msg;

    match factory {
        Some(f) => {
            store.factory = Some(f);
        },
        None => {
            match remove_factory {
                Some(true) => {
                    store.factory = None;
                },
                _ => {},
            }
        },
    }

    match delete_lps {
        Some(dels) => {
            let ghost s1 = *store;
            let mut i: usize = 0;
            while i < dels.len()
                invariant
                    store.wf(),
                    0 <= i <= dels@.len(),
                    store.lps@ == spec_apply_lp_deletes(s1.lps@, dels@.take(i as int)),
                    store.owner == s1.owner,
                    store.factory == s1.factory,
                    store.routes@ == s1.routes@,
                decreases dels@.len() - i,
            {
                proof {
                    assert(dels@.take(i + 1).drop_last() =~= dels@.take(i as int));
                    assert(dels@.take(i + 1).last() == dels@[i as int]);
                }
                store.remove_lp(&dels[i]);
                i = i + 1;
            }
            proof {
                assert(dels@.take(dels@.len() as int) =~= dels@);
            }
        },
        None => {},
    }

    match upsert_lps {
        Some(mut ups) => {
            let ghost orig = ups@;
            let ghost s2 = *store;
            while ups.len() > 0
                invariant
                    store.wf(),
                    ups@.len() <= orig.len(),
                    forall|j: int| 0 <= j < orig.len() ==> (#[trigger] orig[j].config).wf(),
                    ups@ == orig.skip(orig.len() - ups@.len()),
                    store.lps@ == spec_apply_lp_upserts(
                        s2.lps@,
                        orig.take(orig.len() - ups@.len()),
                    ),
                    store.owner == s2.owner,
                    store.factory == s2.factory,
                    store.routes@ == s2.routes@,
                decreases ups@.len(),
            {
                let ghost k = orig.len() - ups@.len();
                proof {
                    assert(ups@[0] == orig.skip(k)[0]);
                    assert(orig.skip(k)[0] == orig[k]);
                }
                let e = ups.remove(0);
                proof {
                    assert(ups@ =~= orig.skip(k + 1));
                    assert(orig.take(k + 1).drop_last() =~= orig.take(k));
                    assert(orig.take(k + 1).last() == orig[k]);
                }
                store.upsert_lp(e);
            }
            proof {
                assert(orig.take(orig.len() as int) =~= orig);
            }
        },
        None => {},
    }

    match delete_routes {
        Some(dels) => {
            let ghost s3 = *store;
            let mut i: usize = 0;
            while i < dels.len()
                invariant
                    store.wf(),
                    0 <= i <= dels@.len(),
                    store.routes@ == spec_apply_route_deletes(s3.routes@, dels@.take(i as int)),
                    store.owner == s3.owner,
                    store.factory == s3.factory,
                    store.lps@ == s3.lps@,
                decreases dels@.len() - i,
            {
                proof {
                    assert(dels@.take(i + 1).drop_last() =~= dels@.take(i as int));
                    assert(dels@.take(i + 1).last() == dels@[i as int]);
                }
                store.remove_route(&dels[i].from, &dels[i].to);
                i = i + 1;
            }
            proof {
                assert(dels@.take(dels@.len() as int) =~= dels@);
            }
        },
        None => {},
    }

    match insert_routes {
        Some(mut ins) => {
            let ghost orig = ins@;
            let ghost s4 = *store;
            while ins.len() > 0
                invariant
                    store.wf(),
                    ins@.len() <= orig.len(),
                    ins@ == orig.skip(orig.len() - ins@.len()),
                    store.routes@ == spec_apply_route_upserts(
                        s4.routes@,
                        orig.take(orig.len() - ins@.len()),
                    ),
                    store.owner == s4.owner,
                    store.factory == s4.factory,
                    store.lps@ == s4.lps@,
                decreases ins@.len(),
            {
                let ghost k = orig.len() - ins@.len();
                proof {
                    assert(ins@[0] == orig.skip(k)[0]);
                    assert(orig.skip(k)[0] == orig[k]);
                }
                let rc = ins.remove(0);
                proof {
                    assert(ins@ =~= orig.skip(k + 1));
                    assert(orig.take(k + 1).drop_last() =~= orig.take(k));
                    assert(orig.take(k + 1).last() == orig[k]);
                }
                store.upsert_route(rc);
            }
            proof {
                assert(orig.take(orig.len() as int) =~= orig);
            }
        },
        None => {},
    }

    Ok(())
}

} // verus!
