use tproxy::feat::startup::{reconcile_startup_tproxy_rules, StartupAction, StartupEvent};
use tproxy::feat::tproxy::RulesReconcile;

const NOON: u64 = 1_700_000_000_000;

fn called(last_ms: u64, now_ms: u64) -> (u64, StartupAction) {
    reconcile_startup_tproxy_rules(last_ms, StartupEvent::Called(Some(now_ms as u128)))
}

#[test]
fn the_first_call_goes_on() {
    assert_eq!(called(0, NOON), (NOON, StartupAction::ReadSettings));
}

#[test]
fn a_call_within_five_seconds_is_dropped() {
    assert_eq!(called(NOON, NOON), (NOON, StartupAction::Stop));
    assert_eq!(called(NOON, NOON + 4999), (NOON, StartupAction::Stop));
    assert_eq!(called(NOON, NOON + 5000), (NOON + 5000, StartupAction::ReadSettings));
}

#[test]
fn a_clock_that_went_back_drops_the_call() {
    assert_eq!(called(NOON, NOON - 60_000), (NOON, StartupAction::Stop));
}

#[test]
fn a_clock_before_the_epoch_counts_as_zero() {
    assert_eq!(
        reconcile_startup_tproxy_rules(0, StartupEvent::Called(None)),
        (0, StartupAction::Stop)
    );
}

#[test]
fn the_time_is_cut_to_64_bits() {
    assert_eq!(
        reconcile_startup_tproxy_rules(0, StartupEvent::Called(Some((1u128 << 64) + 9000))),
        (9000, StartupAction::ReadSettings)
    );
}

#[test]
fn an_enabled_toggle_brings_the_rules_back() {
    assert_eq!(
        reconcile_startup_tproxy_rules(NOON, StartupEvent::Settings(Some(true), Some(1234))),
        (NOON, StartupAction::Apply(RulesReconcile::Enable(1234)))
    );
    assert_eq!(
        reconcile_startup_tproxy_rules(NOON, StartupEvent::Settings(Some(true), None)),
        (NOON, StartupAction::Apply(RulesReconcile::Enable(7896)))
    );
}

#[test]
fn a_toggle_that_is_off_or_unset_looks_for_stale_rules() {
    for enabled in [Some(false), None] {
        assert_eq!(
            reconcile_startup_tproxy_rules(NOON, StartupEvent::Settings(enabled, Some(1234))),
            (NOON, StartupAction::ListRules)
        );
    }
}

#[test]
fn stale_rules_are_removed_and_a_clean_start_prompts_for_nothing() {
    let stale = b"7890: from all fwmark 0xff lookup 100\n".to_vec();
    assert_eq!(
        reconcile_startup_tproxy_rules(NOON, StartupEvent::Listing(Some(stale))),
        (NOON, StartupAction::Apply(RulesReconcile::Disable))
    );
    let clean = b"0: from all lookup local\n".to_vec();
    assert_eq!(
        reconcile_startup_tproxy_rules(NOON, StartupEvent::Listing(Some(clean))),
        (NOON, StartupAction::Stop)
    );
    assert_eq!(
        reconcile_startup_tproxy_rules(NOON, StartupEvent::Listing(None)),
        (NOON, StartupAction::Stop)
    );
}

#[test]
fn calls_that_went_on_lie_apart() {
    let mut last_ms: u64 = 0;
    let mut went_on: Vec<u64> = Vec::new();
    for offset in [0, 3000, 4999, 6000, 100, 9000, 11000, 10999, 11001] {
        let (next_ms, action) = called(last_ms, NOON + offset);
        if action == StartupAction::ReadSettings {
            went_on.push(offset);
        }
        last_ms = next_ms;
    }
    assert_eq!(went_on, [0, 6000, 11000]);
}
