//! Shared value types: service configuration and live state, health
//! check results, and the request/response envelopes of the router.

use vstd::prelude::*;

verus! {

/// `serde_json::Value` is carried through request and response
/// envelopes as an opaque payload; the router never reads inside it.
#[verifier::external_type_specification]
#[verifier::external_body]
pub struct ExJsonValue(serde_json::Value);

/// Immutable description of one worker service.
pub struct ServiceConfig {
    pub name: String,
    pub path: String,
    pub args: Vec<String>,
    pub port: Option<u16>,
    pub health_endpoint: Option<String>,
    pub startup_timeout: u64,
    pub restart_policy: RestartPolicy,
}

#[derive(Clone, Copy, PartialEq, Eq, Structural, Debug)]
pub enum RestartPolicy {
    Never,
    Always,
    OnFailure,
}

#[derive(Clone, Copy, PartialEq, Eq, Structural, Debug)]
pub enum ServiceStatus {
    Stopped,
    Starting,
    Running,
    Failed,
    Restarting,
}

/// Mutable record of one registered service.
pub struct ServiceState {
    /// Stable 128-bit identity, assigned at registration.
    pub id: u128,
    pub config: ServiceConfig,
    pub status: ServiceStatus,
    pub pid: Option<u32>,
    /// Wall clock of the last successful spawn, seconds since epoch.
    pub start_time: Option<u64>,
    pub restart_count: u32,
    pub last_error: Option<String>,
}

/// Outcome of one health check of one service.
pub struct HealthCheckResult {
    pub service_id: u128,
    pub healthy: bool,
    /// Present iff an HTTP probe was performed and completed.
    pub latency: Option<u64>,
    pub error: Option<String>,
    pub timestamp: u64,
}

/// A correlated request envelope bound for one worker service.
pub struct IpcMessage {
    pub id: u128,
    pub service: String,
    pub method: String,
    pub payload: serde_json::Value,
    pub timestamp: u64,
}

/// The reply matched back to a request by its id.
pub struct IpcResponse {
    pub request_id: u128,
    pub success: bool,
    pub data: Option<serde_json::Value>,
    pub error: Option<String>,
}

impl IpcResponse {
    /// A response is well formed when success is reported exactly for
    /// a reply that carries data and no error.
    pub open spec fn wf(self) -> bool {
        self.success <==> (self.data is Some && self.error is None)
    }
}

} // verus!
