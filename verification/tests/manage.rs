use conn_pool::breaker::{BreakerConfig, BreakerState};
use conn_pool::conn::{ClientInfo, HostInfo};
use conn_pool::errors::PoolError;
use conn_pool::manage::ConnManage;
use conn_pool::rng::{SeededRng, LCG_INC, LCG_MUL};

fn cfg() -> BreakerConfig {
    BreakerConfig { threshold: 2, cooldown_ms: 100, half_open_max: 1 }
}

fn client() -> ClientInfo {
    ClientInfo { client_version: String::from("0.1"), tenant: String::from("public") }
}

fn host(ip: &str) -> HostInfo {
    HostInfo { ip: String::from(ip), port: 8848, grpc_port: 9848 }
}

#[test]
fn rng_step_matches_its_formula() {
    let seed: u64 = 42;
    let mut r = SeededRng::new(seed);
    let drawn = r.next_u64();
    let state = seed.wrapping_mul(LCG_MUL).wrapping_add(LCG_INC);
    assert_eq!(r.state, state);
    assert_eq!(drawn, state >> 33);
}

#[test]
fn add_assigns_fresh_increasing_ids() {
    let mut m = ConnManage::new(cfg(), client(), 1);
    assert_eq!(m.add(host("10.0.0.1"), true), 0);
    assert_eq!(m.add(host("10.0.0.2"), true), 1);
    assert_eq!(m.add(host("10.0.0.3"), false), 2);
    assert_eq!(m.conns.len(), 3);
    assert_eq!(m.conns[2].id, 2);
    assert_eq!(m.conns[2].weight, 1);
}

#[test]
fn select_with_no_connections_fails() {
    let mut m = ConnManage::new(cfg(), client(), 1);
    assert_eq!(m.select(0), Err(PoolError::NoAvailableConnection));
}

#[test]
fn select_when_all_breakers_deny_fails() {
    let mut m = ConnManage::new(cfg(), client(), 1);
    m.add(host("10.0.0.1"), true);
    m.add(host("10.0.0.2"), true);
    for id in 0..2u32 {
        m.on_health_event(id, false, 0);
        m.on_health_event(id, false, 0);
        assert_eq!(m.conns[id as usize].breaker.state, BreakerState::Open);
    }
    assert_eq!(m.select(50), Err(PoolError::NoAvailableConnection));
}

#[test]
fn select_never_returns_a_denied_connection() {
    let mut m = ConnManage::new(cfg(), client(), 7);
    m.add(host("10.0.0.1"), true);
    m.add(host("10.0.0.2"), true);
    m.on_health_event(0, false, 0);
    m.on_health_event(0, false, 0);
    for _ in 0..500 {
        assert_eq!(m.select(50), Ok(1));
    }
}

#[test]
fn select_frequencies_follow_weights() {
    let mut m = ConnManage::new(cfg(), client(), 123);
    m.add(host("10.0.0.1"), true);
    m.add(host("10.0.0.2"), true);
    assert!(m.set_weight(1, 3));
    let mut counts = [0u32; 2];
    let draws = 8000;
    for _ in 0..draws {
        let id = m.select(0).unwrap();
        counts[id as usize] += 1;
    }
    // weight 1 of 4 => expect about 2000; weight 3 of 4 => about 6000
    assert!(counts[0] + counts[1] == draws);
    assert!(counts[0] > 1600 && counts[0] < 2400);
    assert!(counts[1] > 5600 && counts[1] < 6400);
}

#[test]
fn set_weight_of_unknown_id_reports_false() {
    let mut m = ConnManage::new(cfg(), client(), 1);
    m.add(host("10.0.0.1"), true);
    assert!(!m.set_weight(9, 5));
    assert_eq!(m.conns[0].weight, 1);
}

#[test]
fn dispatch_without_transport_is_unavailable_and_feeds_the_breaker() {
    let mut m = ConnManage::new(cfg(), client(), 1);
    m.add(host("10.0.0.1"), true);
    assert_eq!(m.dispatch(0), Err(PoolError::Unavailable));
    assert_eq!(m.conns[0].breaker.failures, 1);
    assert_eq!(m.dispatch(0), Err(PoolError::Unavailable));
    assert_eq!(m.conns[0].breaker.state, BreakerState::Open);
    assert_eq!(m.dispatch(50), Err(PoolError::NoAvailableConnection));
}

#[test]
fn dispatch_routes_to_an_initialized_connection() {
    let mut m = ConnManage::new(cfg(), client(), 1);
    let id = m.add(host("127.0.0.1"), true);
    assert_eq!(m.init_conn(id), Ok(()));
    assert_eq!(m.dispatch(0), Ok(id));
    m.on_health_event(id, true, 1);
    assert_eq!(m.conns[0].breaker.failures, 0);
}

#[test]
fn health_events_drive_the_breaker_open() {
    let mut m = ConnManage::new(cfg(), client(), 1);
    let id = m.add(host("127.0.0.1"), true);
    m.on_health_event(id, false, 0);
    m.on_health_event(id, false, 0);
    assert_eq!(m.conns[0].breaker.state, BreakerState::Open);
}

#[test]
fn health_event_for_a_gone_connection_is_dropped() {
    let mut m = ConnManage::new(cfg(), client(), 1);
    m.add(host("127.0.0.1"), true);
    m.on_health_event(42, false, 0);
    assert_eq!(m.conns[0].breaker.failures, 0);
}

#[test]
fn init_conn_unknown_id_is_unavailable() {
    let mut m = ConnManage::new(cfg(), client(), 1);
    assert_eq!(m.init_conn(3), Err(PoolError::Unavailable));
}

#[test]
fn init_conn_bad_address_fails_and_detaches_nothing() {
    let mut m = ConnManage::new(cfg(), client(), 1);
    let id = m.add(host("bad host with spaces"), true);
    assert_eq!(m.init_conn(id), Err(PoolError::ConnectError));
    assert!(m.conns[0].channel.is_none());
}

#[test]
fn remove_closes_and_forgets_the_connection() {
    let mut m = ConnManage::new(cfg(), client(), 1);
    let a = m.add(host("10.0.0.1"), true);
    let b = m.add(host("10.0.0.2"), true);
    assert!(m.remove(a));
    assert_eq!(m.conns.len(), 1);
    assert_eq!(m.conns[0].id, b);
    assert!(!m.remove(a));
    assert_eq!(m.conns.len(), 1);
}
