use conn_pool::breaker::{BreakerConfig, BreakerState};
use conn_pool::conn::{ClientInfo, HostInfo};
use conn_pool::errors::PoolError;
use conn_pool::manage::ConnManage;

// End to end: two connections with weights 1 and 3, breaker threshold 2 and
// cool-down 100 ms. Failures open the first breaker, the pool routes around
// it, one probe is admitted after the cool-down, and a probe success brings
// the weighted split back.
#[test]
fn pool_heals_around_a_failing_connection() {
    let cfg = BreakerConfig { threshold: 2, cooldown_ms: 100, half_open_max: 1 };
    let client = ClientInfo {
        client_version: String::from("0.1"),
        tenant: String::from("public"),
    };
    let mut m = ConnManage::new(cfg, client, 2024);
    let a = m.add(
        HostInfo { ip: String::from("127.0.0.1"), port: 8848, grpc_port: 9848 },
        true,
    );
    let b = m.add(
        HostInfo { ip: String::from("127.0.0.2"), port: 8848, grpc_port: 9848 },
        true,
    );
    assert!(m.set_weight(b, 3));
    assert_eq!(m.init_conn(a), Ok(()));
    assert_eq!(m.init_conn(b), Ok(()));

    // Connection A fails twice; its breaker opens.
    m.on_health_event(a, false, 10);
    m.on_health_event(a, false, 20);
    assert_eq!(m.conns[a as usize].breaker.state, BreakerState::Open);

    // While A cools down, every draw lands on B.
    for _ in 0..1000 {
        assert_eq!(m.select(60), Ok(b));
    }

    // After the cool-down one probe may go to A; dispatching it consumes
    // the single probe slot, so further draws avoid A again.
    let mut probed = false;
    for _ in 0..100 {
        let id = m.dispatch(120).unwrap();
        if id == a {
            probed = true;
            break;
        }
        m.on_health_event(b, true, 121);
    }
    assert!(probed);
    assert_eq!(m.conns[a as usize].breaker.state, BreakerState::HalfOpen);
    for _ in 0..200 {
        assert_eq!(m.select(130), Ok(b));
    }

    // The probe succeeds: A closes and the weighted split returns.
    m.on_health_event(a, true, 140);
    assert_eq!(m.conns[a as usize].breaker.state, BreakerState::Closed);
    let mut counts = [0u32; 2];
    let draws = 8000;
    for _ in 0..draws {
        counts[m.select(150).unwrap() as usize] += 1;
    }
    assert!(counts[0] + counts[1] == draws);
    // weight 1 of 4 for A, weight 3 of 4 for B
    assert!(counts[a as usize] > 1600 && counts[a as usize] < 2400);
    assert!(counts[b as usize] > 5600 && counts[b as usize] < 6400);

    // Tearing the pool down is idempotent at every level.
    assert!(m.remove(a));
    assert!(!m.remove(a));
    assert_eq!(m.dispatch(150), Ok(b));
}

// A probe failure restarts the cool-down instead of closing the breaker.
#[test]
fn failed_probe_reopens() {
    let cfg = BreakerConfig { threshold: 1, cooldown_ms: 100, half_open_max: 1 };
    let client = ClientInfo {
        client_version: String::from("0.1"),
        tenant: String::from("public"),
    };
    let mut m = ConnManage::new(cfg, client, 5);
    let a = m.add(
        HostInfo { ip: String::from("127.0.0.1"), port: 8848, grpc_port: 9848 },
        true,
    );
    assert_eq!(m.init_conn(a), Ok(()));
    m.on_health_event(a, false, 0);
    assert_eq!(m.select(50), Err(PoolError::NoAvailableConnection));
    assert_eq!(m.dispatch(100), Ok(a));
    m.on_health_event(a, false, 110);
    assert_eq!(m.conns[0].breaker.state, BreakerState::Open);
    assert_eq!(m.conns[0].breaker.opened_at_ms, 110);
    assert_eq!(m.select(150), Err(PoolError::NoAvailableConnection));
    assert_eq!(m.dispatch(210), Ok(a));
}
