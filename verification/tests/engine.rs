//! The orchestrated flow: route resolution, the synchronous compound
//! phase, and the two deferred steps.

use eris::asset::Asset;
use eris::asset::AssetInfo;
use eris::asset::Coin;
use eris::dec::Dec;
use eris::error::ContractError;
use eris::execute::compound;
use eris::execute::handle_callback;
use eris::execute::optimal_swap;
use eris::execute::provide_liquidity;
use eris::msgs::Call;
use eris::msgs::CallbackMsg;
use eris::msgs::Env;
use eris::msgs::MessageInfo;
use eris::state::LpConfig;
use eris::state::LpEntry;
use eris::state::PairType;
use eris::state::RouteConfig;
use eris::state::Store;

fn native_info(denom: &str) -> AssetInfo {
    AssetInfo::NativeToken {
        denom: denom.to_string(),
    }
}

fn token_info(addr: &str) -> AssetInfo {
    AssetInfo::Token {
        contract_addr: addr.to_string(),
    }
}

fn lp_config(pair_type: PairType) -> LpConfig {
    LpConfig {
        pair_contract: "pair".to_string(),
        asset_infos: vec![native_info("uluna"), token_info("astro")],
        pair_type,
        commission_bps: 30,
        slippage_tolerance: Dec::percent(1),
        wanted_token: native_info("uluna"),
    }
}

fn store_with(factory: Option<String>, routes: Vec<RouteConfig>) -> Store {
    Store {
        owner: "owner".to_string(),
        factory,
        lps: vec![LpEntry {
            lp_token: "lp".to_string(),
            config: lp_config(PairType::Xyk),
        }],
        routes,
    }
}

fn reward_route() -> RouteConfig {
    RouteConfig {
        asset_x: token_info("reward"),
        asset_y: native_info("uluna"),
        pair_contract: "reward_pair".to_string(),
    }
}

fn env() -> Env {
    Env {
        contract_addr: "proxy".to_string(),
        block_height: 12_345,
    }
}

fn info(sender: &str, funds: Vec<Coin>) -> MessageInfo {
    MessageInfo {
        sender: sender.to_string(),
        funds,
    }
}

fn balances(luna: u128, astro: u128) -> Vec<Asset> {
    vec![
        Asset {
            info: native_info("uluna"),
            amount: luna,
        },
        Asset {
            info: token_info("astro"),
            amount: astro,
        },
    ]
}

#[test]
fn compound_full_flow() {
    let store = store_with(None, vec![reward_route()]);
    let rewards = vec![
        Asset {
            info: token_info("reward"),
            amount: 70,
        },
        Asset {
            info: native_info("uluna"),
            amount: 100,
        },
    ];
    let funds = vec![Coin {
        denom: "uluna".to_string(),
        amount: 100,
    }];
    let msgs = compound(
        &store,
        &env(),
        &info("user", funds),
        &rewards,
        "user".to_string(),
        None,
        Some(Dec::percent(2)),
        &"lp".to_string(),
        &balances(500, 800),
    )
    .unwrap();

    // Token reward: pull it in, then swap it over its static route.
    // Native reward: already a pool asset, nothing to queue.
    // Then the two deferred steps, in order.
    assert_eq!(msgs.len(), 4);
    assert_eq!(
        msgs[0],
        Call::TransferFrom {
            token: "reward".to_string(),
            owner: "user".to_string(),
            recipient: "proxy".to_string(),
            amount: 70,
        }
    );
    assert_eq!(
        msgs[1],
        Call::Swap {
            pair: "reward_pair".to_string(),
            offer: Asset {
                info: token_info("reward"),
                amount: 70,
            },
            max_spread: Dec::percent(10),
        }
    );
    assert_eq!(
        msgs[2],
        Call::Callback {
            contract: "proxy".to_string(),
            msg: CallbackMsg::OptimalSwap {
                lp_token: "lp".to_string(),
            },
        }
    );
    // The snapshot subtracts the native reward that settled in this call.
    assert_eq!(
        msgs[3],
        Call::Callback {
            contract: "proxy".to_string(),
            msg: CallbackMsg::ProvideLiquidity {
                prev_balances: vec![
                    Asset {
                        info: native_info("uluna"),
                        amount: 400,
                    },
                    Asset {
                        info: token_info("astro"),
                        amount: 800,
                    },
                ],
                slippage_tolerance: Some(Dec::percent(2)),
                receiver: "user".to_string(),
                lp_token: "lp".to_string(),
            },
        }
    );
}

#[test]
fn compound_no_swap_flag_skips_optimal_swap() {
    let store = store_with(None, vec![]);
    let rewards = vec![Asset {
        info: native_info("uluna"),
        amount: 5,
    }];
    let funds = vec![Coin {
        denom: "uluna".to_string(),
        amount: 5,
    }];
    let msgs = compound(
        &store,
        &env(),
        &info("user", funds),
        &rewards,
        "user".to_string(),
        Some(true),
        None,
        &"lp".to_string(),
        &balances(5, 0),
    )
    .unwrap();
    assert_eq!(msgs.len(), 1);
    assert!(matches!(
        msgs[0],
        Call::Callback {
            msg: CallbackMsg::ProvideLiquidity { .. },
            ..
        }
    ));
}

#[test]
fn compound_static_route_beats_factory() {
    // Both a static route and a factory are configured: the static route
    // must be used, never the factory.
    let store = store_with(Some("factory".to_string()), vec![reward_route()]);
    let rewards = vec![Asset {
        info: token_info("reward"),
        amount: 70,
    }];
    let msgs = compound(
        &store,
        &env(),
        &info("user", vec![]),
        &rewards,
        "user".to_string(),
        Some(true),
        None,
        &"lp".to_string(),
        &balances(0, 0),
    )
    .unwrap();
    match &msgs[1] {
        Call::Swap { pair, .. } => assert_eq!(pair.as_str(), "reward_pair"),
        other => panic!("expected a static-route swap, got {:?}", other),
    }
}

#[test]
fn compound_factory_fallback() {
    let store = store_with(Some("factory".to_string()), vec![]);
    let rewards = vec![Asset {
        info: token_info("reward"),
        amount: 70,
    }];
    let msgs = compound(
        &store,
        &env(),
        &info("user", vec![]),
        &rewards,
        "user".to_string(),
        Some(true),
        None,
        &"lp".to_string(),
        &balances(0, 0),
    )
    .unwrap();
    assert_eq!(
        msgs[1],
        Call::FactorySwap {
            factory: "factory".to_string(),
            offer: Asset {
                info: token_info("reward"),
                amount: 70,
            },
            ask: native_info("uluna"),
            max_spread: Dec::percent(50),
        }
    );
}

#[test]
fn compound_missing_route_aborts_whole_operation() {
    // Two rewards; the second has no route and there is no factory: the
    // call returns an error and therefore no calls at all.
    let store = store_with(None, vec![reward_route()]);
    let rewards = vec![
        Asset {
            info: token_info("reward"),
            amount: 70,
        },
        Asset {
            info: token_info("stranded"),
            amount: 5,
        },
    ];
    let r = compound(
        &store,
        &env(),
        &info("user", vec![]),
        &rewards,
        "user".to_string(),
        None,
        None,
        &"lp".to_string(),
        &balances(0, 0),
    );
    assert_eq!(
        r,
        Err(ContractError::RouteNotFound {
            from: "stranded".to_string(),
            to: "uluna".to_string(),
        })
    );
}

#[test]
fn compound_native_balance_mismatch() {
    let store = store_with(None, vec![]);
    let rewards = vec![Asset {
        info: native_info("uluna"),
        amount: 100,
    }];
    let r = compound(
        &store,
        &env(),
        &info("user", vec![]),
        &rewards,
        "user".to_string(),
        None,
        None,
        &"lp".to_string(),
        &balances(500, 0),
    );
    assert_eq!(
        r,
        Err(ContractError::NativeBalanceMismatch {
            denom: "uluna".to_string(),
        })
    );
}

#[test]
fn compound_unknown_lp() {
    let store = store_with(None, vec![]);
    let r = compound(
        &store,
        &env(),
        &info("user", vec![]),
        &vec![],
        "user".to_string(),
        None,
        None,
        &"other".to_string(),
        &balances(0, 0),
    );
    assert_eq!(
        r,
        Err(ContractError::LpNotFound {
            lp_token: "other".to_string(),
        })
    );
}

#[test]
fn callback_rejects_foreign_sender() {
    // The deferred steps accept only the contract itself as sender.
    let store = store_with(None, vec![]);
    let r = handle_callback(
        &store,
        &env(),
        &info("mallory", vec![]),
        CallbackMsg::OptimalSwap {
            lp_token: "lp".to_string(),
        },
        &balances(0, 0),
        &vec![1000, 1000],
    );
    assert_eq!(r, Err(ContractError::Unauthorized));
}

#[test]
fn callback_optimal_swap_runs_derivation() {
    let store = store_with(None, vec![]);
    let msgs = handle_callback(
        &store,
        &env(),
        &info("proxy", vec![]),
        CallbackMsg::OptimalSwap {
            lp_token: "lp".to_string(),
        },
        &balances(300, 0),
        &vec![1000, 1000],
    )
    .unwrap();
    assert_eq!(msgs.len(), 1);
    match &msgs[0] {
        Call::Swap { pair, offer, .. } => {
            assert_eq!(pair.as_str(), "pair");
            assert_eq!(
                offer,
                &Asset {
                    info: native_info("uluna"),
                    amount: 140,
                }
            );
        }
        other => panic!("expected a swap call, got {:?}", other),
    }
}

#[test]
fn optimal_swap_stable_pool_is_noop() {
    let mut store = store_with(None, vec![]);
    store.lps[0].config.pair_type = PairType::Stable;
    let msgs = optimal_swap(&store, &"lp".to_string(), &balances(300, 0), &vec![1000, 1000])
        .unwrap();
    assert!(msgs.is_empty());
}

#[test]
fn optimal_swap_empty_holdings_is_noop() {
    let store = store_with(None, vec![]);
    let msgs =
        optimal_swap(&store, &"lp".to_string(), &balances(0, 0), &vec![1000, 1000]).unwrap();
    assert!(msgs.is_empty());
}

#[test]
fn provide_liquidity_exact_deltas() {
    // Snapshot (100, 200), holdings now (150, 260): deposits are exactly
    // the differences (50, 60) — the native part as funds, the token
    // part behind a one-block allowance.
    let store = store_with(None, vec![]);
    let prev = vec![
        Asset {
            info: native_info("uluna"),
            amount: 100,
        },
        Asset {
            info: token_info("astro"),
            amount: 200,
        },
    ];
    let msgs = provide_liquidity(
        &store,
        &env(),
        &prev,
        "user".to_string(),
        None,
        &"lp".to_string(),
        &balances(150, 260),
    )
    .unwrap();
    assert_eq!(msgs.len(), 2);
    assert_eq!(
        msgs[0],
        Call::IncreaseAllowance {
            token: "astro".to_string(),
            spender: "pair".to_string(),
            amount: 60,
            expires_at_height: 12_346,
        }
    );
    assert_eq!(
        msgs[1],
        Call::ProvideLiquidity {
            pair: "pair".to_string(),
            assets: vec![
                Asset {
                    info: native_info("uluna"),
                    amount: 50,
                },
                Asset {
                    info: token_info("astro"),
                    amount: 60,
                },
            ],
            slippage_tolerance: Dec::percent(1),
            receiver: "user".to_string(),
            funds: vec![Coin {
                denom: "uluna".to_string(),
                amount: 50,
            }],
        }
    );
}

#[test]
fn provide_liquidity_negative_delta_aborts() {
    let store = store_with(None, vec![]);
    let prev = vec![
        Asset {
            info: native_info("uluna"),
            amount: 200,
        },
        Asset {
            info: token_info("astro"),
            amount: 0,
        },
    ];
    let r = provide_liquidity(
        &store,
        &env(),
        &prev,
        "user".to_string(),
        None,
        &"lp".to_string(),
        &balances(150, 0),
    );
    assert_eq!(r, Err(ContractError::NegativeDelta));
}

#[test]
fn provide_liquidity_takes_larger_slippage() {
    let store = store_with(None, vec![]);
    let msgs = provide_liquidity(
        &store,
        &env(),
        &vec![],
        "user".to_string(),
        Some(Dec::percent(5)),
        &"lp".to_string(),
        &balances(10, 0),
    )
    .unwrap();
    match msgs.last().unwrap() {
        Call::ProvideLiquidity {
            slippage_tolerance, ..
        } => assert_eq!(*slippage_tolerance, Dec::percent(5)),
        other => panic!("expected the liquidity call, got {:?}", other),
    }
}
