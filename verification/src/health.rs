//! The health monitor: probe planning for each service, evaluation
//! of probe outcomes, the bounded per-service history, and the
//! idempotent start/stop state of the monitoring loop.
//!
//! The HTTP probe itself is network work the embedding program
//! performs with the planned URL and the fixed probe timeout; every
//! decision before and after the probe is made here.

use crate::decimal::{dec_str, u16_to_string};
use crate::process::{view_opt_string, StateModel};
use crate::table::{
    lemma_table_contains, lemma_table_index, lemma_table_push, lemma_table_remove, table_find,
    table_map, unique_keys,
};
use crate::types::{HealthCheckResult, ServiceState};
use vstd::prelude::*;
use vstd::string::StringExecFns;

verus! {

/// Each service keeps at most this many recent results.
pub const HEALTH_HISTORY_CAP: usize = 100;

/// The monitoring loop is meant to wake once per this many seconds.
pub const MONITOR_INTERVAL_SECONDS: u64 = 30;

/// Each HTTP probe is given this many seconds.
pub const PROBE_TIMEOUT_SECONDS: u64 = 5;

/// The mathematical shape of a health check result.
pub ghost struct ResultModel {
    pub service_id: u128,
    pub healthy: bool,
    pub latency: Option<u64>,
    pub error: Option<Seq<char>>,
    pub timestamp: u64,
}

impl View for HealthCheckResult {
    type V = ResultModel;

    open spec fn view(&self) -> ResultModel {
        ResultModel {
            service_id: self.service_id,
            healthy: self.healthy,
            latency: self.latency,
            error: view_opt_string(self.error),
            timestamp: self.timestamp,
        }
    }
}

/// The URL a health probe targets: the local loopback on the
/// service's port, at its configured endpoint path.
pub open spec fn health_url(port: u16, endpoint: Seq<char>) -> Seq<char> {
    "http://localhost:"@ + dec_str(port as int) + endpoint
}

/// A service record asks for an HTTP probe when it declares both a
/// port and a health endpoint.
pub open spec fn probe_needed(s: StateModel) -> bool {
    s.config.port is Some && s.config.health_endpoint is Some
}

/// What a health check of one service must do.
pub enum ProbePlan {
    /// The service is Failed or Stopped: report it unhealthy
    /// without probing.
    NotRunning,
    /// No port or endpoint is configured: report it healthy on
    /// process presence alone.
    ProcessOnly,
    /// Probe this URL with the fixed per-probe timeout; any 2xx
    /// answer is healthy.
    Http(String),
}

/// Plans the check of one service, exactly as its record demands.
pub fn check_service_plan(service: &ServiceState) -> (r: ProbePlan)
    ensures
        ((service@.status is Failed || service@.status is Stopped) ==> r is NotRunning),
        (!(service@.status is Failed || service@.status is Stopped) && probe_needed(service@)
            ==> (r matches ProbePlan::Http(url) && url@ == health_url(
            service@.config.port->0,
            service@.config.health_endpoint->0,
        ))),
        (!(service@.status is Failed || service@.status is Stopped) && !probe_needed(service@)
            ==> r is ProcessOnly),
{
    match service.status {
        crate::types::ServiceStatus::Failed => ProbePlan::NotRunning,
        crate::types::ServiceStatus::Stopped => ProbePlan::NotRunning,
        _ => {
            match (&service.config.port, &service.config.health_endpoint) {
                (Some(port), Some(endpoint)) => {
                    let mut url = "http://localhost:".to_owned();
                    let port_str = u16_to_string(*port);
                    url.append(port_str.as_str());
                    url.append(endpoint.as_str());
                    ProbePlan::Http(url)
                },
                _ => ProbePlan::ProcessOnly,
            }
        },
    }
}

/// Builds the result of one health check from its plan and, for an
/// HTTP plan, the probe's outcome: whether the answer was 2xx and
/// the measured latency, with a completed probe and only such a
/// probe reporting a latency. A probe that failed in transport
/// counts as unhealthy with no latency.
pub fn check_service_result(
    service_id: u128,
    plan: &ProbePlan,
    http: Option<(bool, Option<u64>)>,
    timestamp: u64,
) -> (r: HealthCheckResult)
    requires
        http is Some <==> plan is Http,
    ensures
        r@.service_id == service_id,
        r@.timestamp == timestamp,
        (plan is NotRunning ==> r@.healthy == false && r@.latency is None && r@.error == Some(
            "Service is not running"@,
        )),
        (plan is ProcessOnly ==> r@.healthy == true && r@.latency is None && r@.error is None),
        (plan is Http ==> (http matches Some((h, l)) ==> r@.healthy == h && r@.latency == l
            && r@.error == if h {
            Option::<Seq<char>>::None
        } else {
            Some("HTTP check failed"@)
        })),
{
    match plan {
        ProbePlan::NotRunning => HealthCheckResult {
            service_id,
            healthy: false,
            latency: None,
            error: Some("Service is not running".to_owned()),
            timestamp,
        },
        ProbePlan::ProcessOnly => HealthCheckResult {
            service_id,
            healthy: true,
            latency: None,
            error: None,
            timestamp,
        },
        ProbePlan::Http(_) => {
            let (healthy, latency) = match http {
                Some(o) => o,
                None => (false, None),
            };
            HealthCheckResult {
                service_id,
                healthy,
                latency,
                error: if healthy {
                    None
                } else {
                    Some("HTTP check failed".to_owned())
                },
                timestamp,
            }
        },
    }
}

pub open spec fn view_results(s: Seq<HealthCheckResult>) -> Seq<ResultModel> {
    s.map_values(|r: HealthCheckResult| r@)
}

/// Appending to a full history drops its oldest entry first, so the
/// history keeps at most the cap.
pub open spec fn capped_append(s: Seq<ResultModel>, r: ResultModel) -> Seq<ResultModel> {
    if s.len() < HEALTH_HISTORY_CAP {
        s.push(r)
    } else {
        s.subrange(1, s.len() as int).push(r)
    }
}

/// The health monitor: per-service bounded histories and the state
/// of the monitoring loop.
pub struct HttpHealthChecker {
    health_history: Vec<(u128, Vec<HealthCheckResult>)>,
    monitoring_active: bool,
    loop_running: bool,
}

impl View for HttpHealthChecker {
    type V = Map<u128, Seq<ResultModel>>;

    closed spec fn view(&self) -> Map<u128, Seq<ResultModel>> {
        table_map(self.health_history@).map_values(|v: Vec<HealthCheckResult>| view_results(v@))
    }
}

impl HttpHealthChecker {
    /// Well-formedness, and the history bound: every service's
    /// history holds at most the cap of results.
    pub closed spec fn wf(self) -> bool {
        &&& unique_keys(self.health_history@)
        &&& forall|i: int|
            0 <= i < self.health_history@.len() ==> #[trigger] self.health_history@[i].1@.len()
                <= HEALTH_HISTORY_CAP
    }

    /// The monitor's flag: whether monitoring is wanted.
    pub closed spec fn spec_active(self) -> bool {
        self.monitoring_active
    }

    /// Whether a monitoring loop is alive.
    pub closed spec fn spec_loop_running(self) -> bool {
        self.loop_running
    }

    /// History bound law: every history the monitor holds is at most
    /// the cap long.
    pub proof fn lemma_history_bounded(self, id: u128)
        requires
            self.wf(),
            self@.contains_key(id),
        ensures
            self@[id].len() <= HEALTH_HISTORY_CAP,
    {
        lemma_table_contains(self.health_history@, id);
        let i = choose|i: int|
            0 <= i < self.health_history@.len() && self.health_history@[i].0 == id;
        lemma_table_index(self.health_history@, i);
    }

    pub fn new() -> (r: HttpHealthChecker)
        ensures
            r.wf(),
            r@ == Map::<u128, Seq<ResultModel>>::empty(),
            !r.spec_active(),
            !r.spec_loop_running(),
    {
        let r = HttpHealthChecker {
            health_history: Vec::new(),
            monitoring_active: false,
            loop_running: false,
        };
        proof {
            assert(r@ =~= Map::<u128, Seq<ResultModel>>::empty());
        }
        r
    }

    /// Appends one result to its service's history, evicting the
    /// oldest entry when the history is at its cap.
    pub fn store_health_result(&mut self, result: HealthCheckResult)
        requires
            old(self).wf(),
        ensures
            final(self).wf(),
            final(self)@ == old(self)@.insert(
                result.service_id,
                capped_append(
                    if old(self)@.contains_key(result.service_id) {
                        old(self)@[result.service_id]
                    } else {
                        Seq::<ResultModel>::empty()
                    },
                    result@,
                ),
            ),
            final(self).spec_active() == old(self).spec_active(),
            final(self).spec_loop_running() == old(self).spec_loop_running(),
    {
        let id = result.service_id;
        let found = table_find(&self.health_history, id);
        proof {
            lemma_table_contains(self.health_history@, id);
        }
        match found {
            None => {
                let mut history: Vec<HealthCheckResult> = Vec::new();
                history.push(result);
                proof {
                    lemma_table_push(self.health_history@, id, history);
                }
                self.health_history.push((id, history));
                proof {
                    assert(view_results(history@) =~= Seq::<ResultModel>::empty().push(result@));
                    assert(self@ =~= old(self)@.insert(
                        id,
                        capped_append(Seq::<ResultModel>::empty(), result@),
                    ));
                }
            },
            Some(i) => {
                proof {
                    lemma_table_index(self.health_history@, i as int);
                }
                let ghost pre = self.health_history@;
                proof {
                    lemma_table_remove(self.health_history@, i as int);
                }
                let (k, mut history) = self.health_history.remove(i);
                let ghost old_hist = history@;
                history.push(result);
                if history.len() > HEALTH_HISTORY_CAP {
                    let _ = history.remove(0);
                }
                proof {
                    assert(view_results(history@) =~= capped_append(
                        view_results(old_hist),
                        result@,
                    )) by {
                        if old_hist.len() < HEALTH_HISTORY_CAP {
                            assert(history@ =~= old_hist.push(result));
                        } else {
                            assert(history@ =~= old_hist.push(result).remove(0));
                            assert(old_hist.push(result).remove(0) =~= old_hist.subrange(
                                1,
                                old_hist.len() as int,
                            ).push(result));
                        }
                    }
                    assert(forall|j: int|
                        0 <= j < self.health_history@.len()
                            ==> #[trigger] self.health_history@[j].0 != k) by {
                        assert(forall|j: int|
                            0 <= j < self.health_history@.len()
                                ==> #[trigger] self.health_history@[j] == if j < i {
                                pre[j]
                            } else {
                                pre[j + 1]
                            });
                    }
                    lemma_table_push(self.health_history@, k, history);
                }
                self.health_history.push((k, history));
                proof {
                    assert(table_map(self.health_history@) =~= table_map(pre).insert(k, history));
                    assert(self@ =~= old(self)@.insert(
                        id,
                        capped_append(old(self)@[id], result@),
                    ));
                }
            },
        }
    }

    /// A copy of one service's history, oldest first; empty for an
    /// unknown identity.
    pub fn get_health_history(&self, service_id: u128) -> (r: Vec<HealthCheckResult>)
        requires
            self.wf(),
        ensures
            (self@.contains_key(service_id) ==> view_results(r@) == self@[service_id]),
            (!self@.contains_key(service_id) ==> r@.len() == 0),
    {
        let found = table_find(&self.health_history, service_id);
        proof {
            lemma_table_contains(self.health_history@, service_id);
        }
        match found {
            None => Vec::new(),
            Some(i) => {
                proof {
                    lemma_table_index(self.health_history@, i as int);
                }
                let source = &self.health_history[i].1;
                let mut r: Vec<HealthCheckResult> = Vec::new();
                let mut j: usize = 0;
                while j < source.len()
                    invariant
                        j <= source@.len(),
                        r@.len() == j,
                        forall|k: int| 0 <= k < j ==> #[trigger] r@[k]@ == source@[k]@,
                    decreases source@.len() - j,
                {
                    let copy = clone_result(&source[j]);
                    r.push(copy);
                    j = j + 1;
                }
                proof {
                    assert(view_results(r@) =~= view_results(source@));
                }
                r
            },
        }
    }

    /// Marks monitoring active. Reports whether the caller must
    /// spawn the monitoring loop: exactly when none is alive, so a
    /// second start never spawns a second loop.
    pub fn start_monitoring(&mut self) -> (spawn: bool)
        ensures
            final(self).spec_active(),
            final(self).spec_loop_running(),
            spawn == !old(self).spec_loop_running(),
            final(self)@ == old(self)@,
            final(self).wf() == old(self).wf(),
    {
        self.monitoring_active = true;
        let spawn = !self.loop_running;
        self.loop_running = true;
        spawn
    }

    /// Marks monitoring inactive; the loop observes this on its next
    /// wake and exits.
    pub fn stop_monitoring(&mut self)
        ensures
            !final(self).spec_active(),
            final(self).spec_loop_running() == old(self).spec_loop_running(),
            final(self)@ == old(self)@,
            final(self).wf() == old(self).wf(),
    {
        self.monitoring_active = false;
    }

    /// The loop's per-wake decision: keep going exactly while
    /// monitoring is wanted; on a stop the loop is recorded as gone,
    /// so a later start spawns a fresh one.
    pub fn monitor_should_continue(&mut self) -> (go: bool)
        ensures
            go == old(self).spec_active(),
            final(self).spec_active() == old(self).spec_active(),
            final(self).spec_loop_running() == (old(self).spec_loop_running()
                && old(self).spec_active()),
            final(self)@ == old(self)@,
            final(self).wf() == old(self).wf(),
    {
        if !self.monitoring_active {
            self.loop_running = false;
            false
        } else {
            true
        }
    }
}

/// Monitor idempotence law, first half: calling start twice in a row
/// asks for at most one loop; the second call never spawns.
pub proof fn lemma_start_twice_spawns_once(
    m0: HttpHealthChecker,
    m1: HttpHealthChecker,
    m2: HttpHealthChecker,
    spawn1: bool,
    spawn2: bool,
)
    requires
        m1.spec_active() && m1.spec_loop_running() && spawn1 == !m0.spec_loop_running(),
        m2.spec_active() && m2.spec_loop_running() && spawn2 == !m1.spec_loop_running(),
    ensures
        !spawn2,
{
}

/// Copies a health check result, preserving its mathematical shape.
pub fn clone_result(r: &HealthCheckResult) -> (c: HealthCheckResult)
    ensures
        c@ == r@,
{
    HealthCheckResult {
        service_id: r.service_id,
        healthy: r.healthy,
        latency: r.latency,
        error: match &r.error {
            Some(e) => Some(e.clone()),
            None => None,
        },
        timestamp: r.timestamp,
    }
}

} // verus!
