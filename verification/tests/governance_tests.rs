use cellguard::runtime::governance::{governance_effect, EntropyLevel, GovernanceKind, GovernorCooldown};

const COOLDOWN: u64 = 1_000;

#[test]
fn green_level_takes_no_action() {
    let mut g = GovernorCooldown::new(COOLDOWN);
    assert_eq!(g.take_action_at(EntropyLevel::Green, 5_000), GovernanceKind::NoAction);
    assert_eq!(g.last_action_ns, 0);
}

#[test]
fn each_level_maps_to_its_action() {
    let cases = [
        (EntropyLevel::Yellow, GovernanceKind::Warn),
        (EntropyLevel::Red, GovernanceKind::Throttle),
        (EntropyLevel::Critical, GovernanceKind::Emergency),
    ];
    for (level, kind) in cases {
        let mut g = GovernorCooldown::new(COOLDOWN);
        assert_eq!(g.take_action_at(level, 5_000), kind);
        assert_eq!(g.last_action_ns, 5_000);
    }
}

#[test]
fn cooldown_prevents_repeated_action() {
    let mut g = GovernorCooldown::new(COOLDOWN);
    assert_eq!(g.take_action_at(EntropyLevel::Critical, 5_000), GovernanceKind::Emergency);
    assert_eq!(g.take_action_at(EntropyLevel::Critical, 5_999), GovernanceKind::NoAction);
    assert_eq!(g.last_action_ns, 5_000);
    assert_eq!(g.remaining_ns(5_400), 600);
    assert_eq!(g.take_action_at(EntropyLevel::Critical, 6_000), GovernanceKind::Emergency);
    assert_eq!(g.last_action_ns, 6_000);
}

#[test]
fn cooldown_before_first_action_counts_from_zero() {
    let mut g = GovernorCooldown::new(COOLDOWN);
    assert!(g.is_cooling(999));
    assert_eq!(g.take_action_at(EntropyLevel::Red, 999), GovernanceKind::NoAction);
    assert!(!g.is_cooling(1_000));
    assert_eq!(g.remaining_ns(1_000), 0);
}

#[test]
fn should_reduce_only_when_hot_and_not_cooling() {
    let mut g = GovernorCooldown::new(COOLDOWN);
    assert!(!g.should_reduce_at(EntropyLevel::Yellow, 10_000));
    assert_eq!(g.last_action_ns, 0);
    assert!(g.should_reduce_at(EntropyLevel::Red, 10_000));
    assert_eq!(g.last_action_ns, 10_000);
    assert!(!g.should_reduce_at(EntropyLevel::Critical, 10_500));
    assert!(g.should_reduce_at(EntropyLevel::Critical, 11_000));
    assert_eq!(g.last_action_ns, 11_000);
}

#[test]
fn governance_effects_follow_the_action() {
    let calm = governance_effect(GovernanceKind::NoAction, true, true);
    assert!(calm.clear_throttles && !calm.throttle_target && !calm.emergency);
    let warn = governance_effect(GovernanceKind::Warn, true, true);
    assert!(!warn.clear_throttles && !warn.throttle_target && warn.emergency);
    assert!(governance_effect(GovernanceKind::Throttle, true, false).throttle_target);
    assert!(!governance_effect(GovernanceKind::Throttle, false, false).throttle_target);
    assert!(governance_effect(GovernanceKind::Emergency, false, false).emergency);
}
