//! Data types exchanged with the surrounding services.

use eris::ampz::MigrateMsg;
use eris::ampz::Schedule;
use eris::ampz::Source;
use eris::arb_vault::Cw20HookMsg;
use eris::arb_vault::LsdConfig;
use eris::arb_vault::LsdType;
use eris::arb_vault::UserDetails;

#[test]
fn source_names() {
    assert_eq!(Source::Claim.as_name(), "claim");
    assert_eq!(
        Source::AstroRewards {
            lps: vec!["lp".to_string()],
        }
        .as_name(),
        "astro_rewards"
    );
}

#[test]
fn schedule_is_plain_data() {
    let s = Schedule {
        start: Some(10_000),
        interval_s: 100,
    };
    assert_eq!(s, s);
    assert_ne!(
        s,
        Schedule {
            start: None,
            interval_s: 100,
        }
    );
    let _ = MigrateMsg {};
}

#[test]
fn lsd_config_carries_provider() {
    let cfg = LsdConfig {
        disabled: false,
        lsd_type: LsdType::Eris {
            addr: "hub".to_string(),
            cw20: "amp".to_string(),
        },
    };
    assert!(!cfg.disabled);
    match &cfg.lsd_type {
        LsdType::Eris { addr, cw20 } => {
            assert_eq!(addr.as_str(), "hub");
            assert_eq!(cw20.as_str(), "amp");
        }
        other => panic!("unexpected provider {:?}", other),
    }
    assert_eq!(
        Cw20HookMsg::Unbond {
            immediate: Some(true),
        },
        Cw20HookMsg::Unbond {
            immediate: Some(true),
        }
    );
    let _ = UserDetails {};
    let _ = eris::arb_vault::MigrateMsg {};
}
