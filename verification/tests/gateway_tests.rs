use gateway_core::backend::HealthStatus;
use gateway_core::errors::GatewayError;
use gateway_core::gateway::Gateway;
use gateway_core::metrics::MetricsSink;
use gateway_core::mutate::{OutboundRequest, RequestMutator};
use gateway_core::pool::BackendPool;
use gateway_core::router::{Router, ServiceId};

fn addrs(list: &[&str]) -> Vec<String> {
    list.iter().map(|s| s.to_string()).collect()
}

fn test_gateway() -> Gateway {
    let pool_a = BackendPool::new(addrs(&["10.0.0.1:80", "10.0.0.2:80"])).unwrap();
    let pool_b = BackendPool::new(addrs(&["10.0.1.1:80", "10.0.1.2:80"])).unwrap();
    Gateway::new(
        Router::new(ServiceId::ServiceA),
        RequestMutator::new("a.example".to_string(), "b.example".to_string()),
        pool_a,
        pool_b,
        "service_a".to_string(),
        "service_b".to_string(),
    )
}

#[test]
fn route_is_deterministic_for_a_fixed_signal() {
    let router = Router::new(ServiceId::ServiceA);
    assert_eq!(router.route(true), router.route(true));
    assert_eq!(router.route(false), router.route(false));
    assert_eq!(router.route(true), ServiceId::ServiceB);
    assert_eq!(router.route(false), ServiceId::ServiceA);
}

#[test]
fn signal_routes_to_service_b_absence_to_default() {
    let mut gw = test_gateway();

    let mut ctx = gw.new_ctx();
    gw.request_filter(&mut ctx, true);
    let chosen = gw.upstream_peer(&mut ctx, b"").unwrap();
    assert!(chosen.addr.starts_with("10.0.1."));

    let mut ctx = gw.new_ctx();
    gw.request_filter(&mut ctx, false);
    let chosen = gw.upstream_peer(&mut ctx, b"").unwrap();
    assert!(chosen.addr.starts_with("10.0.0."));
}

#[test]
fn rewrite_sets_host_for_destination_and_nothing_else() {
    let gw = test_gateway();
    let mut ctx = gw.new_ctx();
    gw.request_filter(&mut ctx, true);
    let mut req = OutboundRequest {
        method: "GET".to_string(),
        path: "/index.html".to_string(),
        host: "gateway.local".to_string(),
    };
    gw.upstream_request_filter(&mut req, &ctx);
    assert_eq!(req.host, "b.example");
    assert_eq!(req.method, "GET");
    assert_eq!(req.path, "/index.html");

    gw.request_filter(&mut ctx, false);
    gw.upstream_request_filter(&mut req, &ctx);
    assert_eq!(req.host, "a.example");
}

#[test]
fn one_completed_request_counts_once_under_its_service_and_backend() {
    let mut gw = test_gateway();
    let mut ctx = gw.new_ctx();
    gw.request_filter(&mut ctx, false);
    let chosen = gw.upstream_peer(&mut ctx, b"").unwrap();
    assert_eq!(chosen.addr, "10.0.0.1:80");
    let mut req = OutboundRequest {
        method: "GET".to_string(),
        path: "/".to_string(),
        host: "gateway.local".to_string(),
    };
    gw.upstream_request_filter(&mut req, &ctx);
    gw.response_filter(&ctx);
    assert_eq!(
        gw.counter(&"service_a".to_string(), &"10.0.0.1:80".to_string()),
        1
    );
    assert_eq!(
        gw.counter(&"service_b".to_string(), &"10.0.0.1:80".to_string()),
        0
    );
    let snapshot = gw.metrics_snapshot();
    assert_eq!(snapshot.len(), 1);
    assert_eq!(snapshot[0].service, "service_a");
    assert_eq!(snapshot[0].backend, "10.0.0.1:80");
    assert_eq!(snapshot[0].count, 1);
}

#[test]
fn failed_selection_surfaces_no_healthy_backend_through_the_gateway() {
    let mut gw = test_gateway();
    gw.publish_health(ServiceId::ServiceA, &vec![false, false]);
    let mut ctx = gw.new_ctx();
    gw.request_filter(&mut ctx, false);
    assert!(matches!(
        gw.upstream_peer(&mut ctx, b""),
        Err(GatewayError::NoHealthyBackend)
    ));
    assert!(ctx.upstream.is_none());
    // Service B is untouched by service A's health tick.
    gw.request_filter(&mut ctx, true);
    assert!(gw.upstream_peer(&mut ctx, b"").is_ok());
}

#[test]
fn gateway_health_tick_flips_statuses_per_probe_result() {
    let mut gw = test_gateway();
    gw.publish_health(ServiceId::ServiceA, &vec![false, true]);
    let healthy = gw.healthy_backends(ServiceId::ServiceA);
    assert_eq!(healthy.len(), 1);
    assert_eq!(healthy[0].addr, "10.0.0.2:80");
    assert!(matches!(healthy[0].status, HealthStatus::Healthy));
    gw.publish_health(ServiceId::ServiceA, &vec![true, true]);
    assert_eq!(gw.healthy_backends(ServiceId::ServiceA).len(), 2);
}

#[test]
fn request_failed_at_selection_is_not_counted() {
    let mut gw = test_gateway();
    gw.publish_health(ServiceId::ServiceA, &vec![false, false]);
    let mut ctx = gw.new_ctx();
    gw.request_filter(&mut ctx, false);
    assert!(gw.upstream_peer(&mut ctx, b"").is_err());
    // The pipeline stops before the response stage, so nothing is
    // recorded for either backend of the failed service.
    assert_eq!(gw.metrics_snapshot().len(), 0);
    assert_eq!(
        gw.counter(&"service_a".to_string(), &"10.0.0.1:80".to_string()),
        0
    );
}

#[test]
fn repeated_requests_attribute_counts_per_backend_in_rotation() {
    let mut gw = test_gateway();
    for _ in 0..4 {
        let mut ctx = gw.new_ctx();
        gw.request_filter(&mut ctx, false);
        gw.upstream_peer(&mut ctx, b"").unwrap();
        gw.response_filter(&ctx);
    }
    // Four requests over two backends in rotation: two each.
    assert_eq!(
        gw.counter(&"service_a".to_string(), &"10.0.0.1:80".to_string()),
        2
    );
    assert_eq!(
        gw.counter(&"service_a".to_string(), &"10.0.0.2:80".to_string()),
        2
    );
}

#[test]
fn increments_strictly_increase_and_sum_up() {
    let mut sink = MetricsSink::new();
    let service = "service_a".to_string();
    let backend = "10.0.0.1:80".to_string();
    let mut last = sink.get(&service, &backend);
    assert_eq!(last, 0);
    for _ in 0..5 {
        sink.increment(&service, &backend);
        let now = sink.get(&service, &backend);
        assert!(now > last);
        last = now;
    }
    assert_eq!(last, 5);
}

#[test]
fn counters_for_different_keys_are_independent() {
    let mut sink = MetricsSink::new();
    let sa = "service_a".to_string();
    let sb = "service_b".to_string();
    let b1 = "10.0.0.1:80".to_string();
    let b2 = "10.0.0.2:80".to_string();
    sink.increment(&sa, &b1);
    sink.increment(&sa, &b2);
    sink.increment(&sb, &b1);
    sink.increment(&sa, &b1);
    assert_eq!(sink.get(&sa, &b1), 2);
    assert_eq!(sink.get(&sa, &b2), 1);
    assert_eq!(sink.get(&sb, &b1), 1);
    assert_eq!(sink.get(&sb, &b2), 0);
    assert_eq!(sink.snapshot().len(), 3);
}
