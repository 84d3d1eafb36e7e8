use service_fabric::health::{
    check_service_plan, check_service_result, HttpHealthChecker, ProbePlan, HEALTH_HISTORY_CAP,
};
use service_fabric::types::{
    HealthCheckResult, RestartPolicy, ServiceConfig, ServiceState, ServiceStatus,
};

fn service(port: Option<u16>, endpoint: Option<&str>, status: ServiceStatus) -> ServiceState {
    ServiceState {
        id: 77,
        config: ServiceConfig {
            name: "w".to_string(),
            path: "w".to_string(),
            args: vec![],
            port,
            health_endpoint: endpoint.map(|e| e.to_string()),
            startup_timeout: 5,
            restart_policy: RestartPolicy::Never,
        },
        status,
        pid: None,
        start_time: None,
        restart_count: 0,
        last_error: None,
    }
}

#[test]
fn test_probe_without_endpoint() {
    let svc = service(None, None, ServiceStatus::Running);
    let plan = check_service_plan(&svc);
    assert!(matches!(plan, ProbePlan::ProcessOnly));

    let result = check_service_result(svc.id, &plan, None, 123);
    assert!(result.healthy);
    assert_eq!(result.latency, None);
    assert_eq!(result.error, None);
    assert_eq!(result.service_id, 77);
    assert_eq!(result.timestamp, 123);
}

#[test]
fn test_probe_url() {
    let svc = service(Some(8000), Some("/health"), ServiceStatus::Running);
    match check_service_plan(&svc) {
        ProbePlan::Http(url) => assert_eq!(url, "http://localhost:8000/health"),
        _ => panic!("a service with port and endpoint must be probed"),
    }
}

#[test]
fn test_stopped_service_not_probed() {
    let svc = service(Some(8000), Some("/health"), ServiceStatus::Stopped);
    let plan = check_service_plan(&svc);
    assert!(matches!(plan, ProbePlan::NotRunning));

    let result = check_service_result(svc.id, &plan, None, 5);
    assert!(!result.healthy);
    assert_eq!(result.latency, None);
    assert_eq!(result.error, Some("Service is not running".to_string()));
}

#[test]
fn test_check_all_workers_absent() {
    // all four workers probed, none listening: every probe fails in
    // transport, and each service yields one unhealthy result with
    // an error recorded
    let ids = [1u128, 2, 3, 4];
    let mut results = vec![];
    for (i, id) in ids.iter().enumerate() {
        let mut svc = service(Some(8000 + i as u16), Some("/health"), ServiceStatus::Running);
        svc.id = *id;
        let plan = check_service_plan(&svc);
        assert!(matches!(plan, ProbePlan::Http(_)));
        // a transport failure reports unhealthy with no latency
        results.push(check_service_result(svc.id, &plan, Some((false, None)), 9));
    }
    assert_eq!(results.len(), 4);
    for (i, r) in results.iter().enumerate() {
        assert_eq!(r.service_id, ids[i]);
        assert!(!r.healthy);
        assert!(r.error.is_some());
    }
}

#[test]
fn test_probe_success_reports_latency() {
    let svc = service(Some(8001), Some("/health"), ServiceStatus::Running);
    let plan = check_service_plan(&svc);
    let result = check_service_result(svc.id, &plan, Some((true, Some(12))), 50);
    assert!(result.healthy);
    assert_eq!(result.latency, Some(12));
    assert_eq!(result.error, None);
}

fn result_at(id: u128, ts: u64) -> HealthCheckResult {
    HealthCheckResult { service_id: id, healthy: true, latency: None, error: None, timestamp: ts }
}

#[test]
fn test_history_bound() {
    let mut checker = HttpHealthChecker::new();
    for ts in 0..150u64 {
        checker.store_health_result(result_at(5, ts));
    }
    let history = checker.get_health_history(5);
    assert_eq!(history.len(), HEALTH_HISTORY_CAP);
    // the oldest entries were evicted first
    assert_eq!(history[0].timestamp, 50);
    assert_eq!(history[99].timestamp, 149);
}

#[test]
fn test_history_per_service() {
    let mut checker = HttpHealthChecker::new();
    checker.store_health_result(result_at(1, 10));
    checker.store_health_result(result_at(2, 20));
    checker.store_health_result(result_at(1, 30));

    let h1 = checker.get_health_history(1);
    assert_eq!(h1.len(), 2);
    assert_eq!(h1[0].timestamp, 10);
    assert_eq!(h1[1].timestamp, 30);
    assert_eq!(checker.get_health_history(2).len(), 1);
    assert_eq!(checker.get_health_history(3).len(), 0);
}

#[test]
fn test_monitor_start_idempotent() {
    let mut checker = HttpHealthChecker::new();
    // the first start spawns a loop, the second must not
    assert!(checker.start_monitoring());
    assert!(!checker.start_monitoring());

    // the loop keeps going while monitoring is wanted
    assert!(checker.monitor_should_continue());

    // after a stop the loop exits on its next wake...
    checker.stop_monitoring();
    assert!(!checker.monitor_should_continue());

    // ...and a fresh start spawns a fresh loop
    assert!(checker.start_monitoring());
}
