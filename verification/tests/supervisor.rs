use service_fabric::process::{LocalProcessManager, ProcessError};
use service_fabric::types::{RestartPolicy, ServiceConfig, ServiceStatus};

fn sleeper_config() -> ServiceConfig {
    ServiceConfig {
        name: "x".to_string(),
        path: "/bin/sleep".to_string(),
        args: vec!["1".to_string()],
        port: None,
        health_endpoint: None,
        startup_timeout: 5,
        restart_policy: RestartPolicy::Never,
    }
}

#[test]
fn test_register_then_start() {
    let mut manager = LocalProcessManager::new();
    manager.register_service(sleeper_config()).unwrap();

    let cfg = manager.start_service("x").unwrap();
    assert_eq!(cfg.path, "/bin/sleep");
    assert_eq!(cfg.args, vec!["1".to_string()]);

    let id = manager.finish_start("x", Ok(4242)).unwrap();
    let state = manager.get_service_status("x").unwrap();
    assert_eq!(state.id, id);
    assert!(matches!(state.status, ServiceStatus::Running));
    assert_eq!(state.pid, Some(4242));
    assert_eq!(manager.child_pid("x"), Some(4242));

    manager.stop_service("x").unwrap();
    let state = manager.get_service_status("x").unwrap();
    assert!(matches!(state.status, ServiceStatus::Stopped));
    assert_eq!(state.pid, None);
    assert_eq!(manager.child_pid("x"), None);
}

#[test]
fn test_register_duplicate_name() {
    let mut manager = LocalProcessManager::new();
    manager.register_service(sleeper_config()).unwrap();
    match manager.register_service(sleeper_config()) {
        Err(ProcessError::AlreadyRegistered(n)) => assert_eq!(n, "x"),
        other => panic!("expected AlreadyRegistered, got {:?}", other),
    }
}

#[test]
fn test_start_unknown_service() {
    let mut manager = LocalProcessManager::new();
    match manager.start_service("ghost") {
        Err(ProcessError::NotFound(n)) => assert_eq!(n, "ghost"),
        other => panic!("expected NotFound, got {:?}", other.map(|_| ())),
    }
}

#[test]
fn test_start_while_running() {
    let mut manager = LocalProcessManager::new();
    manager.register_service(sleeper_config()).unwrap();
    manager.start_service("x").unwrap();
    manager.finish_start("x", Ok(7)).unwrap();
    match manager.start_service("x") {
        Err(ProcessError::InvalidState(n)) => assert_eq!(n, "x"),
        other => panic!("expected InvalidState, got {:?}", other.map(|_| ())),
    }
}

#[test]
fn test_spawn_failure_records_error() {
    let mut manager = LocalProcessManager::new();
    manager.register_service(sleeper_config()).unwrap();
    manager.start_service("x").unwrap();
    match manager.finish_start("x", Err("no such file".to_string())) {
        Err(ProcessError::SpawnFailed(m)) => assert_eq!(m, "no such file"),
        other => panic!("expected SpawnFailed, got {:?}", other.map(|_| ())),
    }
    let state = manager.get_service_status("x").unwrap();
    assert!(matches!(state.status, ServiceStatus::Failed));
    assert_eq!(state.last_error, Some("no such file".to_string()));
    assert_eq!(state.pid, None);

    // a failed service may be started again
    manager.start_service("x").unwrap();
    let state = manager.get_service_status("x").unwrap();
    assert!(matches!(state.status, ServiceStatus::Starting));
}

#[test]
fn test_restart_increments_count() {
    let mut manager = LocalProcessManager::new();
    manager.register_service(sleeper_config()).unwrap();
    manager.start_service("x").unwrap();
    manager.finish_start("x", Ok(11)).unwrap();

    let pid = manager.restart_service("x").unwrap();
    assert_eq!(pid, Some(11));
    let state = manager.get_service_status("x").unwrap();
    assert!(matches!(state.status, ServiceStatus::Restarting));

    manager.resume_restart("x").unwrap();
    manager.finish_start("x", Ok(12)).unwrap();
    let state = manager.get_service_status("x").unwrap();
    assert_eq!(state.restart_count, 1);
    assert!(matches!(state.status, ServiceStatus::Running));
    assert_eq!(state.pid, Some(12));

    manager.restart_service("x").unwrap();
    manager.resume_restart("x").unwrap();
    manager.finish_start("x", Ok(13)).unwrap();
    let state = manager.get_service_status("x").unwrap();
    assert_eq!(state.restart_count, 2);
}

#[test]
fn test_default_deployment() {
    let mut manager = LocalProcessManager::new();
    manager.initialize_default_services().unwrap();

    let all = manager.get_all_services();
    assert_eq!(all.len(), 4);

    let ai = manager.get_service_status("ai-engine").unwrap();
    assert_eq!(ai.config.port, Some(8000));
    assert_eq!(ai.config.path, "python3");
    assert_eq!(ai.config.health_endpoint, Some("/health".to_string()));
    assert!(matches!(ai.config.restart_policy, RestartPolicy::Always));
    assert!(matches!(ai.status, ServiceStatus::Stopped));

    let dsl = manager.get_service_status("dsl-parser").unwrap();
    assert_eq!(dsl.config.port, Some(8001));
    let graph = manager.get_service_status("graph-engine").unwrap();
    assert_eq!(graph.config.port, Some(8002));
    let events = manager.get_service_status("event-processor").unwrap();
    assert_eq!(events.config.port, Some(8003));
}

#[test]
fn test_stop_missing_child_is_ok() {
    let mut manager = LocalProcessManager::new();
    manager.register_service(sleeper_config()).unwrap();
    // never started: no child is tracked, and stop still succeeds
    manager.stop_service("x").unwrap();
    let state = manager.get_service_status("x").unwrap();
    assert!(matches!(state.status, ServiceStatus::Stopped));
    // stopping an unregistered name is not an error either
    manager.stop_service("ghost").unwrap();
}
