//! Administrative configuration: ownership, the factory, and the pool
//! and route registries.

use eris::asset::Asset;
use eris::asset::AssetInfo;
use eris::dec::Dec;
use eris::error::ContractError;
use eris::execute::update_config;
use eris::msgs::Call;
use eris::state::LpConfig;
use eris::state::LpEntry;
use eris::state::PairType;
use eris::state::RouteConfig;
use eris::state::RouteDelete;
use eris::state::Store;
use eris::state::UpdateConfig;

fn native_info(denom: &str) -> AssetInfo {
    AssetInfo::NativeToken {
        denom: denom.to_string(),
    }
}

fn token_info(addr: &str) -> AssetInfo {
    AssetInfo::Token {
        contract_addr: addr.to_string(),
    }
}

fn empty_store() -> Store {
    Store {
        owner: "owner".to_string(),
        factory: None,
        lps: vec![],
        routes: vec![],
    }
}

fn lp_entry(key: &str, pair: &str) -> LpEntry {
    LpEntry {
        lp_token: key.to_string(),
        config: LpConfig {
            pair_contract: pair.to_string(),
            asset_infos: vec![native_info("uluna"), token_info("astro")],
            pair_type: PairType::Xyk,
            commission_bps: 30,
            slippage_tolerance: Dec::percent(1),
            wanted_token: native_info("uluna"),
        },
    }
}

fn route(x: &str, y: &str, pair: &str) -> RouteConfig {
    RouteConfig {
        asset_x: token_info(x),
        asset_y: native_info(y),
        pair_contract: pair.to_string(),
    }
}

fn empty_update() -> UpdateConfig {
    UpdateConfig {
        factory: None,
        remove_factory: None,
        upsert_lps: None,
        delete_lps: None,
        insert_routes: None,
        delete_routes: None,
    }
}

#[test]
fn update_config_rejects_non_owner() {
    let mut store = empty_store();
    let r = update_config(&mut store, &"mallory".to_string(), empty_update());
    assert_eq!(r, Err(ContractError::Unauthorized));
    assert!(store.factory.is_none());
}

#[test]
fn update_config_sets_and_clears_factory() {
    let mut store = empty_store();
    let mut msg = empty_update();
    msg.factory = Some("factory".to_string());
    update_config(&mut store, &"owner".to_string(), msg).unwrap();
    assert_eq!(store.factory, Some("factory".to_string()));

    let mut msg = empty_update();
    msg.remove_factory = Some(false);
    update_config(&mut store, &"owner".to_string(), msg).unwrap();
    assert_eq!(store.factory, Some("factory".to_string()));

    let mut msg = empty_update();
    msg.remove_factory = Some(true);
    update_config(&mut store, &"owner".to_string(), msg).unwrap();
    assert_eq!(store.factory, None);
}

#[test]
fn update_config_upserts_and_deletes_pools() {
    let mut store = empty_store();
    let mut msg = empty_update();
    msg.upsert_lps = Some(vec![lp_entry("lp1", "pair1"), lp_entry("lp2", "pair2")]);
    update_config(&mut store, &"owner".to_string(), msg).unwrap();
    assert_eq!(store.lps.len(), 2);

    // Upserting an existing key replaces its configuration in place.
    let mut msg = empty_update();
    msg.upsert_lps = Some(vec![lp_entry("lp1", "pair1b")]);
    update_config(&mut store, &"owner".to_string(), msg).unwrap();
    assert_eq!(store.lps.len(), 2);
    assert_eq!(store.lps[0].config.pair_contract.as_str(), "pair1b");

    let mut msg = empty_update();
    msg.delete_lps = Some(vec!["lp1".to_string()]);
    update_config(&mut store, &"owner".to_string(), msg).unwrap();
    assert_eq!(store.lps.len(), 1);
    assert_eq!(store.lps[0].lp_token.as_str(), "lp2");
}

#[test]
fn update_config_routes_are_unordered() {
    let mut store = empty_store();
    let mut msg = empty_update();
    msg.insert_routes = Some(vec![route("reward", "uluna", "pair_r")]);
    update_config(&mut store, &"owner".to_string(), msg).unwrap();
    assert_eq!(store.routes.len(), 1);

    // The same pair in the opposite orientation hits the same entry.
    let mut msg = empty_update();
    msg.insert_routes = Some(vec![RouteConfig {
        asset_x: native_info("uluna"),
        asset_y: token_info("reward"),
        pair_contract: "pair_r2".to_string(),
    }]);
    update_config(&mut store, &"owner".to_string(), msg).unwrap();
    assert_eq!(store.routes.len(), 1);
    assert_eq!(store.routes[0].pair_contract.as_str(), "pair_r2");

    // Deleting by either orientation clears the single entry.
    let mut msg = empty_update();
    msg.delete_routes = Some(vec![RouteDelete {
        from: token_info("reward"),
        to: native_info("uluna"),
        both: Some(true),
    }]);
    update_config(&mut store, &"owner".to_string(), msg).unwrap();
    assert!(store.routes.is_empty());
}

#[test]
fn resolve_prefers_static_route() {
    let mut store = empty_store();
    store.factory = Some("factory".to_string());
    store.routes.push(route("reward", "uluna", "pair_r"));
    let reward = Asset {
        info: token_info("reward"),
        amount: 9,
    };
    let c = store.resolve(&reward, &native_info("uluna")).unwrap();
    match c {
        Call::Swap { pair, .. } => assert_eq!(pair.as_str(), "pair_r"),
        other => panic!("expected the static route, got {:?}", other),
    }
}

#[test]
fn resolve_without_route_or_factory_fails() {
    let store = empty_store();
    let reward = Asset {
        info: token_info("reward"),
        amount: 9,
    };
    let r = store.resolve(&reward, &native_info("uluna"));
    assert_eq!(
        r,
        Err(ContractError::RouteNotFound {
            from: "reward".to_string(),
            to: "uluna".to_string(),
        })
    );
}

#[test]
fn decimal_helpers() {
    assert_eq!(Dec::percent(10).atomics, 100_000_000_000_000_000);
    assert_eq!(Dec::from_bps(30).atomics, 3_000_000_000_000_000);
    assert_eq!(Dec::percent(1).max_of(Dec::percent(5)), Dec::percent(5));
    assert_eq!(Dec::percent(5).max_of(Dec::percent(1)), Dec::percent(5));
    assert_eq!(Dec::zero().atomics, 0);
}

#[test]
fn error_kinds_are_stable() {
    assert_eq!(ContractError::Overflow.kind(), "overflow");
    assert_eq!(ContractError::Unauthorized.kind(), "unauthorized");
    assert_eq!(ContractError::NegativeDelta.kind(), "negative delta");
}
