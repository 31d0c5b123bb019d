use gateway_core::backend::{BackendSet, HealthStatus};
use gateway_core::errors::GatewayError;
use gateway_core::health::HealthCheckConfig;
use gateway_core::pool::BackendPool;

fn addrs(list: &[&str]) -> Vec<String> {
    list.iter().map(|s| s.to_string()).collect()
}

#[test]
fn backend_set_starts_all_healthy() {
    let set = BackendSet::new(addrs(&["10.0.0.1:80", "10.0.0.2:80"])).unwrap();
    assert_eq!(set.len(), 2);
    let healthy = set.healthy_backends();
    assert_eq!(healthy.len(), 2);
    assert_eq!(healthy[0].addr, "10.0.0.1:80");
    assert_eq!(healthy[1].addr, "10.0.0.2:80");
    assert!(matches!(healthy[0].status, HealthStatus::Healthy));
    assert!(matches!(healthy[1].status, HealthStatus::Healthy));
}

#[test]
fn backend_set_rejects_duplicate_address() {
    let r = BackendSet::new(addrs(&["10.0.0.1:80", "10.0.0.2:80", "10.0.0.1:80"]));
    assert!(matches!(r, Err(GatewayError::DuplicateBackendAddress)));
}

#[test]
fn pool_rejects_empty_backend_list() {
    let r = BackendPool::new(Vec::new());
    assert!(matches!(r, Err(GatewayError::ConfigurationError)));
}

#[test]
fn pool_rejects_duplicate_address() {
    let r = BackendPool::new(addrs(&["10.0.0.1:80", "10.0.0.1:80"]));
    assert!(matches!(r, Err(GatewayError::DuplicateBackendAddress)));
}

#[test]
fn six_selects_cycle_three_healthy_backends_twice() {
    let mut pool = BackendPool::new(addrs(&["a:80", "b:80", "c:80"])).unwrap();
    let mut seen: Vec<String> = Vec::new();
    for _ in 0..6 {
        seen.push(pool.select(b"").unwrap().addr);
    }
    assert_eq!(seen, vec!["a:80", "b:80", "c:80", "a:80", "b:80", "c:80"]);
    let a = seen.iter().filter(|s| *s == "a:80").count();
    let b = seen.iter().filter(|s| *s == "b:80").count();
    let c = seen.iter().filter(|s| *s == "c:80").count();
    assert_eq!((a, b, c), (2, 2, 2));
}

#[test]
fn selects_after_one_backend_turns_unhealthy_cycle_the_rest() {
    let mut pool = BackendPool::new(addrs(&["a:80", "b:80", "c:80"])).unwrap();
    pool.publish_health(&vec![true, false, true]);
    let mut seen: Vec<String> = Vec::new();
    for _ in 0..4 {
        seen.push(pool.select(b"").unwrap().addr);
    }
    assert_eq!(seen, vec!["a:80", "c:80", "a:80", "c:80"]);
}

#[test]
fn select_never_returns_unhealthy_backend() {
    let mut pool = BackendPool::new(addrs(&["a:80", "b:80", "c:80", "d:80"])).unwrap();
    pool.publish_health(&vec![false, true, false, true]);
    for _ in 0..10 {
        let chosen = pool.select(b"").unwrap();
        assert!(matches!(chosen.status, HealthStatus::Healthy));
        assert!(chosen.addr == "b:80" || chosen.addr == "d:80");
    }
}

#[test]
fn all_unhealthy_fails_until_a_tick_restores_one() {
    let mut pool = BackendPool::new(addrs(&["a:80", "b:80", "c:80"])).unwrap();
    pool.publish_health(&vec![false, false, false]);
    for _ in 0..3 {
        assert!(matches!(pool.select(b""), Err(GatewayError::NoHealthyBackend)));
    }
    pool.publish_health(&vec![false, true, false]);
    assert_eq!(pool.select(b"").unwrap().addr, "b:80");
}

#[test]
fn seven_selects_over_three_backends_stay_within_fair_bounds() {
    // With m = 7 and n = 3, each backend is picked floor(7/3) = 2 or
    // ceil(7/3) = 3 times.
    let mut pool = BackendPool::new(addrs(&["a:80", "b:80", "c:80"])).unwrap();
    let mut counts = [0usize; 3];
    for _ in 0..7 {
        let chosen = pool.select(b"").unwrap();
        match chosen.addr.as_str() {
            "a:80" => counts[0] += 1,
            "b:80" => counts[1] += 1,
            "c:80" => counts[2] += 1,
            other => panic!("unexpected backend {}", other),
        }
    }
    assert_eq!(counts, [3, 2, 2]);
    for c in counts {
        assert!(2 <= c && c <= 3);
    }
}

#[test]
fn select_window_returns_the_round_robin_trace() {
    let mut pool = BackendPool::new(addrs(&["a:80", "b:80", "c:80"])).unwrap();
    let trace: Vec<String> = pool.select_window(6).into_iter().map(|b| b.addr).collect();
    assert_eq!(trace, vec!["a:80", "b:80", "c:80", "a:80", "b:80", "c:80"]);
}

#[test]
fn publishing_same_results_twice_changes_nothing_and_keeps_cursor() {
    let mut pool = BackendPool::new(addrs(&["a:80", "b:80", "c:80"])).unwrap();
    // Advance the cursor so a reset would be visible.
    assert_eq!(pool.select(b"").unwrap().addr, "a:80");
    pool.publish_health(&vec![true, false, true]);
    let first: Vec<String> = pool.healthy_backends().into_iter().map(|b| b.addr).collect();
    pool.publish_health(&vec![true, false, true]);
    let second: Vec<String> = pool.healthy_backends().into_iter().map(|b| b.addr).collect();
    assert_eq!(first, second);
    assert_eq!(first, vec!["a:80", "c:80"]);
    // Cursor was 1 before the two publications and still is: the next
    // selection continues the rotation instead of restarting at "a:80".
    assert_eq!(pool.select(b"").unwrap().addr, "c:80");
}

#[test]
fn single_backend_pool_always_selects_it() {
    let mut pool = BackendPool::new(addrs(&["only:80"])).unwrap();
    for _ in 0..5 {
        assert_eq!(pool.select(b"").unwrap().addr, "only:80");
    }
}

#[test]
fn selection_ignores_the_request_key() {
    let mut with_key = BackendPool::new(addrs(&["a:80", "b:80"])).unwrap();
    let mut without_key = BackendPool::new(addrs(&["a:80", "b:80"])).unwrap();
    for key in [b"alpha".as_slice(), b"beta".as_slice(), b"".as_slice()] {
        assert_eq!(
            with_key.select(key).unwrap().addr,
            without_key.select(b"").unwrap().addr
        );
    }
}

#[test]
fn probe_config_requires_timeout_strictly_below_interval() {
    let ok = HealthCheckConfig::new(1000, 200).unwrap();
    assert_eq!(ok.interval_ms, 1000);
    assert_eq!(ok.timeout_ms, 200);
    assert!(matches!(
        HealthCheckConfig::new(1000, 1000),
        Err(GatewayError::ConfigurationError)
    ));
    assert!(matches!(
        HealthCheckConfig::new(1000, 0),
        Err(GatewayError::ConfigurationError)
    ));
}
