//! Numeric behaviour of the swap derivation and the swap simulation.

use eris::asset::Asset;
use eris::asset::AssetInfo;
use eris::dec::Dec;
use eris::error::ContractError;
use eris::execute::calculate_optimal_swap;
use eris::msgs::Call;
use eris::pool_math::get_swap_amount;
use eris::pool_math::simulate;
use eris::state::LpConfig;
use eris::state::PairType;

fn native(denom: &str, amount: u128) -> Asset {
    Asset {
        info: AssetInfo::NativeToken {
            denom: denom.to_string(),
        },
        amount,
    }
}

fn lp_config() -> LpConfig {
    LpConfig {
        pair_contract: "pair".to_string(),
        asset_infos: vec![
            AssetInfo::NativeToken {
                denom: "uaaa".to_string(),
            },
            AssetInfo::NativeToken {
                denom: "ubbb".to_string(),
            },
        ],
        pair_type: PairType::Xyk,
        commission_bps: 30,
        slippage_tolerance: Dec::percent(1),
        wanted_token: AssetInfo::NativeToken {
            denom: "uaaa".to_string(),
        },
    }
}

#[test]
fn swap_amount_exact_value() {
    // 300 of asset a against reserves (1000, 1000) at 30 bps.
    let r = get_swap_amount(300, 0, 1000, 1000, 30).unwrap();
    assert_eq!(r, 140);
}

#[test]
fn swap_amount_never_exceeds_excess() {
    let r = get_swap_amount(300, 0, 1000, 1000, 30).unwrap();
    assert!(r <= 300);
    let r = get_swap_amount(7_777_777, 123, 999_983, 1_000_003, 9999).unwrap();
    assert!(r <= 7_777_777);
    let r = get_swap_amount(1, 0, 1_000_000_000, 1, 0).unwrap();
    assert!(r <= 1);
}

#[test]
fn swap_amount_zero_commission() {
    // With zero commission the root is (sqrt(area_ax * area_bx)) scaled:
    // equal deposits over an even pool swap close to half the excess.
    let r = get_swap_amount(100, 0, 1000, 1000, 0).unwrap();
    assert!(r > 0 && r <= 100);
}

#[test]
fn swap_amount_overflow_reported() {
    let r = get_swap_amount(u128::MAX, 0, 1, u128::MAX, 30);
    assert_eq!(r, Err(ContractError::Overflow));
}

#[test]
fn simulate_exact_value() {
    let r = simulate(1000, 1000, 140, Dec::from_bps(30)).unwrap();
    assert_eq!(r, 122);
}

#[test]
fn simulate_commission_reduces_return() {
    let gross = simulate(1000, 1000, 140, Dec::from_bps(0)).unwrap();
    let net = simulate(1000, 1000, 140, Dec::from_bps(5000)).unwrap();
    assert_eq!(gross, 122);
    assert_eq!(net, 61);
    let r = simulate(5, 5, 1, Dec::from_bps(30)).unwrap();
    assert_eq!(r, 0);
}

#[test]
fn optimal_swap_example_scenario() {
    // Pool reserves (1000, 1000), commission 30 bps, deposit (300, 0).
    let lp = lp_config();
    let asset_a = native("uaaa", 300);
    let asset_b = native("ubbb", 0);
    let mut messages: Vec<Call> = Vec::new();
    let (swap_a, swap_b, return_a, return_b) =
        calculate_optimal_swap(&lp, &asset_a, &asset_b, 1000, 1000, &mut messages).unwrap();
    assert_eq!((swap_a, swap_b, return_a, return_b), (140, 0, 0, 122));
    assert!(swap_a <= 300);
    assert_eq!(return_b, simulate(1000, 1000, swap_a, Dec::from_bps(30)).unwrap());
    assert_eq!(messages.len(), 1);
    match &messages[0] {
        Call::Swap {
            pair,
            offer,
            max_spread,
        } => {
            assert_eq!(pair.as_str(), "pair");
            assert_eq!(offer, &native("uaaa", 140));
            assert_eq!(*max_spread, Dec::percent(10));
        }
        other => panic!("expected a swap call, got {:?}", other),
    }
}

#[test]
fn optimal_swap_identical_deposits_no_swap() {
    // Identical deposits (500, 500) into a (1000, 1000) pool.
    let lp = lp_config();
    let asset_a = native("uaaa", 500);
    let asset_b = native("ubbb", 500);
    let mut messages: Vec<Call> = Vec::new();
    let r = calculate_optimal_swap(&lp, &asset_a, &asset_b, 1000, 1000, &mut messages).unwrap();
    assert_eq!(r, (0, 0, 0, 0));
    assert!(messages.is_empty());
}

#[test]
fn optimal_swap_balanced_areas_no_swap() {
    // 200 * 1000 == 100 * 2000: areas tie, nothing is swapped.
    let lp = lp_config();
    let asset_a = native("uaaa", 200);
    let asset_b = native("ubbb", 100);
    let mut messages: Vec<Call> = Vec::new();
    let r = calculate_optimal_swap(&lp, &asset_a, &asset_b, 2000, 1000, &mut messages).unwrap();
    assert_eq!(r, (0, 0, 0, 0));
    assert!(messages.is_empty());
}

#[test]
fn optimal_swap_direction_b_side() {
    // The mirror of the example scenario: the excess sits on side b, so
    // only asset b is offered, never asset a.
    let lp = lp_config();
    let asset_a = native("uaaa", 0);
    let asset_b = native("ubbb", 300);
    let mut messages: Vec<Call> = Vec::new();
    let (swap_a, swap_b, return_a, return_b) =
        calculate_optimal_swap(&lp, &asset_a, &asset_b, 1000, 1000, &mut messages).unwrap();
    assert_eq!((swap_a, swap_b, return_a, return_b), (0, 140, 122, 0));
    assert_eq!(messages.len(), 1);
    match &messages[0] {
        Call::Swap { offer, .. } => assert_eq!(offer, &native("ubbb", 140)),
        other => panic!("expected a swap call, got {:?}", other),
    }
}

#[test]
fn optimal_swap_tiny_return_emits_nothing() {
    // The derived swap amount rounds to zero against a deep pool: no
    // call may be emitted for a zero-output trade.
    let lp = lp_config();
    let asset_a = native("uaaa", 1);
    let asset_b = native("ubbb", 0);
    let mut messages: Vec<Call> = Vec::new();
    let r =
        calculate_optimal_swap(&lp, &asset_a, &asset_b, 1_000_000_000, 1_000_000_000, &mut messages)
            .unwrap();
    assert_eq!(r, (0, 0, 0, 0));
    assert!(messages.is_empty());
}
