use service_fabric::ipc::{
    classify_reply, create_ipc_message, request_url, service_port, HttpReply, IpcManager,
};

#[test]
fn test_service_ports() {
    assert_eq!(service_port("ai-engine"), 8000);
    assert_eq!(service_port("dsl-parser"), 8001);
    assert_eq!(service_port("graph-engine"), 8002);
    assert_eq!(service_port("event-processor"), 8003);
    assert_eq!(service_port("unknown"), 8000);
}

#[test]
fn test_request_url() {
    assert_eq!(request_url("ai-engine", "chat"), "http://localhost:8000/api/chat");
    assert_eq!(request_url("event-processor", "emit"), "http://localhost:8003/api/emit");
    assert_eq!(request_url("nobody", "x"), "http://localhost:8000/api/x");
}

#[test]
fn test_classify_success() {
    let r = classify_reply(9, HttpReply::Success(serde_json::Value::Null));
    assert_eq!(r.request_id, 9);
    assert!(r.success);
    assert!(r.data.is_some());
    assert_eq!(r.error, None);
}

#[test]
fn test_classify_failures() {
    let r = classify_reply(1, HttpReply::BadBody("trailing comma".to_string()));
    assert!(!r.success);
    assert!(r.data.is_none());
    assert_eq!(r.error, Some("Failed to parse response: trailing comma".to_string()));

    let r = classify_reply(2, HttpReply::HttpError("500 Internal Server Error".to_string()));
    assert!(!r.success);
    assert_eq!(r.error, Some("Service returned error: 500 Internal Server Error".to_string()));

    let r = classify_reply(3, HttpReply::Transport("connection refused".to_string()));
    assert!(!r.success);
    assert!(r.data.is_none());
    assert_eq!(r.error, Some("connection refused".to_string()));
}

#[test]
fn test_pending_correlation() {
    let mut manager = IpcManager::new();
    manager.register_pending(10);
    manager.register_pending(20);

    // resolving one request leaves the other in flight
    assert!(manager.resolve_pending(10));
    assert!(!manager.resolve_pending(10));
    assert!(manager.resolve_pending(20));
    assert!(!manager.resolve_pending(20));
}

#[test]
fn test_ipc_flow_failure() {
    // route a request to a worker nobody is running: the reply
    // classifies as a failure and the pending entry is cleaned
    let mut manager = IpcManager::new();
    manager.initialize().unwrap();
    assert!(manager.client_available("ai-engine"));
    assert!(!manager.client_available("stranger"));

    let message = create_ipc_message("ai-engine", "chat", serde_json::Value::Null);
    assert_eq!(message.service, "ai-engine");
    assert_eq!(message.method, "chat");

    manager.register_pending(message.id);
    let response = classify_reply(
        message.id,
        HttpReply::Transport("error trying to connect".to_string()),
    );
    assert!(!response.success);
    assert!(response.error.is_some());
    assert_eq!(response.request_id, message.id);

    // delivered once; afterwards nothing is pending under that id
    assert!(manager.resolve_pending(message.id));
    assert!(!manager.resolve_pending(message.id));
}
