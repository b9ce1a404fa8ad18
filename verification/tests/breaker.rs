use conn_pool::breaker::{Breaker, BreakerConfig, BreakerState};

fn cfg(threshold: u32, cooldown_ms: u64, half_open_max: u32) -> BreakerConfig {
    BreakerConfig { threshold, cooldown_ms, half_open_max }
}

#[test]
fn closed_allows_and_counts_failures() {
    let mut b = Breaker::new(cfg(3, 100, 1));
    assert_eq!(b.state, BreakerState::Closed);
    assert!(b.allow(0));
    b.record(false, 10);
    assert_eq!(b.failures, 1);
    assert!(b.allow(10));
    b.record(false, 20);
    assert_eq!(b.failures, 2);
    assert!(b.allow(20));
    assert_eq!(b.state, BreakerState::Closed);
}

#[test]
fn success_resets_consecutive_count() {
    let mut b = Breaker::new(cfg(3, 100, 1));
    b.record(false, 1);
    b.record(false, 2);
    b.record(true, 3);
    assert_eq!(b.failures, 0);
    assert_eq!(b.state, BreakerState::Closed);
}

#[test]
fn threshold_opens_and_denies_until_cooldown() {
    let mut b = Breaker::new(cfg(2, 100, 1));
    b.record(false, 10);
    assert_eq!(b.state, BreakerState::Closed);
    b.record(false, 50);
    assert_eq!(b.state, BreakerState::Open);
    assert_eq!(b.opened_at_ms, 50);
    assert!(!b.allow(50));
    assert!(!b.allow(149));
    assert_eq!(b.state, BreakerState::Open);
    assert!(b.allow(150));
    assert_eq!(b.state, BreakerState::HalfOpen);
}

#[test]
fn half_open_admits_exactly_one_probe() {
    let mut b = Breaker::new(cfg(1, 100, 1));
    b.record(false, 0);
    assert_eq!(b.state, BreakerState::Open);
    assert!(b.allow(100));
    assert_eq!(b.state, BreakerState::HalfOpen);
    assert!(!b.allow(100));
    assert!(!b.allow(500));
    assert_eq!(b.probes, 1);
}

#[test]
fn half_open_success_closes_and_clears() {
    let mut b = Breaker::new(cfg(2, 100, 1));
    b.record(false, 0);
    b.record(false, 0);
    assert!(b.allow(100));
    b.record(true, 110);
    assert_eq!(b.state, BreakerState::Closed);
    assert_eq!(b.failures, 0);
    assert!(b.allow(110));
}

#[test]
fn half_open_failure_reopens_and_restarts_cooldown() {
    let mut b = Breaker::new(cfg(2, 100, 1));
    b.record(false, 0);
    b.record(false, 0);
    assert!(b.allow(100));
    b.record(false, 120);
    assert_eq!(b.state, BreakerState::Open);
    assert_eq!(b.opened_at_ms, 120);
    assert!(!b.allow(150));
    assert!(!b.allow(219));
    assert!(b.allow(220));
}

#[test]
fn outcome_while_open_is_ignored() {
    let mut b = Breaker::new(cfg(1, 1000, 1));
    b.record(false, 0);
    assert_eq!(b.state, BreakerState::Open);
    b.record(true, 10);
    assert_eq!(b.state, BreakerState::Open);
    assert_eq!(b.opened_at_ms, 0);
    b.record(false, 20);
    assert_eq!(b.state, BreakerState::Open);
    assert_eq!(b.opened_at_ms, 0);
}

#[test]
fn two_probes_allowed_when_configured() {
    let mut b = Breaker::new(cfg(1, 100, 2));
    b.record(false, 0);
    assert!(b.allow(100));
    assert!(b.allow(100));
    assert!(!b.allow(100));
    assert_eq!(b.probes, 2);
}

#[test]
fn denied_allow_changes_nothing() {
    let mut b = Breaker::new(cfg(1, 100, 1));
    b.record(false, 30);
    let before = b;
    assert!(!b.allow(129));
    assert_eq!(b, before);
}
