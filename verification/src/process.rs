//! The process supervisor: a registry of service records, the
//! lifecycle state machine over their statuses, and the child-pid
//! bookkeeping that accompanies it.
//!
//! Spawning and killing child processes is operating-system work the
//! embedding program performs; the supervisor's operations here make
//! every decision and record every transition, taking spawn outcomes
//! as plain values.

use crate::platform;
use crate::table::{
    lemma_named_contains, lemma_named_dom_len, lemma_named_index, lemma_named_push,
    lemma_named_remove, named_map, named_unique,
};
use crate::types::{RestartPolicy, ServiceConfig, ServiceState, ServiceStatus};
use vstd::prelude::*;

verus! {

/// Seconds a restart waits between stopping and starting again.
pub const RESTART_DELAY_SECONDS: u64 = 2;

#[derive(Debug)]
pub enum ProcessError {
    NotFound(String),
    AlreadyRegistered(String),
    SpawnFailed(String),
    KillFailed(String),
    InvalidState(String),
}

/// The mathematical shape of a service configuration.
pub ghost struct ConfigModel {
    pub name: Seq<char>,
    pub path: Seq<char>,
    pub args: Seq<Seq<char>>,
    pub port: Option<u16>,
    pub health_endpoint: Option<Seq<char>>,
    pub startup_timeout: u64,
    pub restart_policy: RestartPolicy,
}

/// The mathematical shape of a service record.
pub ghost struct StateModel {
    pub id: u128,
    pub config: ConfigModel,
    pub status: ServiceStatus,
    pub pid: Option<u32>,
    pub start_time: Option<u64>,
    pub restart_count: u32,
    pub last_error: Option<Seq<char>>,
}

pub open spec fn view_opt_string(o: Option<String>) -> Option<Seq<char>> {
    match o {
        Some(s) => Some(s@),
        None => None,
    }
}

pub open spec fn view_string_seq(v: Seq<String>) -> Seq<Seq<char>> {
    v.map_values(|s: String| s@)
}

impl View for ServiceConfig {
    type V = ConfigModel;

    open spec fn view(&self) -> ConfigModel {
        ConfigModel {
            name: self.name@,
            path: self.path@,
            args: view_string_seq(self.args@),
            port: self.port,
            health_endpoint: view_opt_string(self.health_endpoint),
            startup_timeout: self.startup_timeout,
            restart_policy: self.restart_policy,
        }
    }
}

impl View for ServiceState {
    type V = StateModel;

    open spec fn view(&self) -> StateModel {
        StateModel {
            id: self.id,
            config: self.config@,
            status: self.status,
            pid: self.pid,
            start_time: self.start_time,
            restart_count: self.restart_count,
            last_error: view_opt_string(self.last_error),
        }
    }
}

/// The transitions of the lifecycle table, and no others: start
/// leaves Stopped or Failed for Starting; a spawn outcome takes
/// Starting to Running or Failed; stop takes Running to Stopped; a
/// restart may be requested in any state and, once the old child is
/// gone, moves on to Starting.
pub open spec fn legal_transition(from: ServiceStatus, to: ServiceStatus) -> bool {
    ||| (from is Stopped && to is Starting)
    ||| (from is Failed && to is Starting)
    ||| (from is Starting && to is Running)
    ||| (from is Starting && to is Failed)
    ||| (from is Running && to is Stopped)
    ||| (to is Restarting)
    ||| (from is Restarting && to is Starting)
}

/// Every service present before and after either kept its status or
/// moved along the lifecycle table.
pub open spec fn steps_legal(
    pre: Map<Seq<char>, StateModel>,
    post: Map<Seq<char>, StateModel>,
) -> bool {
    forall|n: Seq<char>|
        pre.contains_key(n) && #[trigger] post.contains_key(n) && pre[n].status != post[n].status
            ==> legal_transition(pre[n].status, post[n].status)
}

/// Restart counts never decrease for any service present before and
/// after.
pub open spec fn counts_monotone(
    pre: Map<Seq<char>, StateModel>,
    post: Map<Seq<char>, StateModel>,
) -> bool {
    forall|n: Seq<char>|
        pre.contains_key(n) && #[trigger] post.contains_key(n) ==> pre[n].restart_count
            <= post[n].restart_count
}

/// Every service other than `n` is untouched.
pub open spec fn others_same(
    pre: Map<Seq<char>, StateModel>,
    post: Map<Seq<char>, StateModel>,
    n: Seq<char>,
) -> bool {
    forall|m: Seq<char>|
        m != n ==> ((#[trigger] post.contains_key(m) <==> pre.contains_key(m)) && (pre.contains_key(
            m,
        ) ==> post[m] == pre[m]))
}

/// A saturating increment: restart counters stop at the maximum
/// rather than wrap, so they never decrease.
pub open spec fn inc32(c: u32) -> u32 {
    if c == u32::MAX {
        c
    } else {
        (c + 1) as u32
    }
}

/// Every service present before and after kept its whole record.
pub open spec fn preserves_existing(
    pre: Map<Seq<char>, StateModel>,
    post: Map<Seq<char>, StateModel>,
) -> bool {
    forall|n: Seq<char>|
        pre.contains_key(n) && #[trigger] post.contains_key(n) ==> post[n] == pre[n]
}

/// A freshly registered record for configuration `c`.
pub open spec fn default_entry(m: StateModel, c: ConfigModel) -> bool {
    &&& m.config == c
    &&& m.status is Stopped
    &&& m.pid is None
    &&& m.start_time is None
    &&& m.restart_count == 0
    &&& m.last_error is None
}

pub open spec fn ai_engine_config() -> ConfigModel {
    ConfigModel {
        name: "ai-engine"@,
        path: "python3"@,
        args: seq!["-m"@, "uvicorn"@, "main:app"@, "--reload"@],
        port: Some(8000u16),
        health_endpoint: Some("/health"@),
        startup_timeout: 30,
        restart_policy: RestartPolicy::Always,
    }
}

pub open spec fn dsl_parser_config() -> ConfigModel {
    ConfigModel {
        name: "dsl-parser"@,
        path: "dsl-parser"@,
        args: seq!["--server"@],
        port: Some(8001u16),
        health_endpoint: Some("/health"@),
        startup_timeout: 10,
        restart_policy: RestartPolicy::Always,
    }
}

pub open spec fn graph_engine_config() -> ConfigModel {
    ConfigModel {
        name: "graph-engine"@,
        path: "./main"@,
        args: seq!["--port"@, "8002"@],
        port: Some(8002u16),
        health_endpoint: Some("/health"@),
        startup_timeout: 15,
        restart_policy: RestartPolicy::Always,
    }
}

pub open spec fn event_processor_config() -> ConfigModel {
    ConfigModel {
        name: "event-processor"@,
        path: "elixir"@,
        args: seq!["-S"@, "mix"@, "phx.server"@],
        port: Some(8003u16),
        health_endpoint: Some("/health"@),
        startup_timeout: 20,
        restart_policy: RestartPolicy::Always,
    }
}

/// The registry holds the default deployment: each of the four
/// workers freshly registered under its configuration.
pub open spec fn default_deployed(m: Map<Seq<char>, StateModel>) -> bool {
    &&& m.contains_key("ai-engine"@) && default_entry(m["ai-engine"@], ai_engine_config())
    &&& m.contains_key("dsl-parser"@) && default_entry(m["dsl-parser"@], dsl_parser_config())
    &&& m.contains_key("graph-engine"@) && default_entry(m["graph-engine"@], graph_engine_config())
    &&& m.contains_key("event-processor"@) && default_entry(
        m["event-processor"@],
        event_processor_config(),
    )
}

/// The record of a service whose spawn at time `t` produced child
/// `pid`.
pub open spec fn started_model(m: StateModel, pid: u32, t: u64) -> StateModel {
    StateModel { status: ServiceStatus::Running, pid: Some(pid), start_time: Some(t), ..m }
}

/// Key projection of the registry: a record is filed under its
/// configured name.
pub open spec fn svc_key() -> spec_fn(ServiceState) -> Seq<char> {
    |s: ServiceState| s.config.name@
}

/// Key projection of the child table.
pub open spec fn proc_key() -> spec_fn((String, u32)) -> Seq<char> {
    |e: (String, u32)| e.0@
}

/// The supervisor: the service registry and the table of tracked
/// child process ids.
pub struct LocalProcessManager {
    services: Vec<ServiceState>,
    processes: Vec<(String, u32)>,
}

impl View for LocalProcessManager {
    type V = Map<Seq<char>, StateModel>;

    closed spec fn view(&self) -> Map<Seq<char>, StateModel> {
        named_map(self.services@, svc_key()).map_values(|s: ServiceState| s@)
    }
}

impl LocalProcessManager {
    /// The tracked children: service name to operating-system pid.
    pub closed spec fn children(self) -> Map<Seq<char>, u32> {
        named_map(self.processes@, proc_key()).map_values(|e: (String, u32)| e.1)
    }

    /// Well-formedness: names are unique in both tables; a child is
    /// tracked exactly for the running services, under the recorded
    /// pid; and a record carries a pid and a start time exactly
    /// while it is running.
    pub closed spec fn wf(self) -> bool {
        &&& named_unique(self.services@, svc_key())
        &&& named_unique(self.processes@, proc_key())
        &&& forall|n: Seq<char>| #[trigger]
            self.children().contains_key(n) ==> self@.contains_key(n) && self@[n].status
                is Running && self@[n].pid == Some(self.children()[n])
        &&& forall|n: Seq<char>| #[trigger]
            self@.contains_key(n) ==> {
                &&& (self@[n].pid is Some <==> self@[n].status is Running)
                &&& (self@[n].start_time is Some <==> self@[n].status is Running)
                &&& (self@[n].status is Running ==> self.children().contains_key(n))
                &&& self@[n].config.name == n
            }
    }

    pub fn new() -> (r: LocalProcessManager)
        ensures
            r.wf(),
            r@ == Map::<Seq<char>, StateModel>::empty(),
            r.children() == Map::<Seq<char>, u32>::empty(),
    {
        let r = LocalProcessManager { services: Vec::new(), processes: Vec::new() };
        proof {
            assert(r@ =~= Map::<Seq<char>, StateModel>::empty());
            assert(r.children() =~= Map::<Seq<char>, u32>::empty());
        }
        r
    }

    /// Files a new record under the configuration's name with a
    /// fresh identity and status Stopped; fails if the name is
    /// already registered.
    pub fn register_service(&mut self, config: ServiceConfig) -> (r: Result<(), ProcessError>)
        requires
            old(self).wf(),
        ensures
            final(self).wf(),
            final(self).children() == old(self).children(),
            (old(self)@.contains_key(config@.name) ==> (r matches Err(
                ProcessError::AlreadyRegistered(n),
            ) && n@ == config@.name && final(self)@ == old(self)@)),
            (!old(self)@.contains_key(config@.name) ==> r is Ok && exists|id: u128|
                final(self)@ == #[trigger] old(self)@.insert(
                    config@.name,
                    StateModel {
                        id,
                        config: config@,
                        status: ServiceStatus::Stopped,
                        pid: None,
                        start_time: None,
                        restart_count: 0,
                        last_error: None,
                    },
                )),
            steps_legal(old(self)@, final(self)@),
            counts_monotone(old(self)@, final(self)@),
    {
        let found = find_service(&self.services, &config.name);
        proof {
            lemma_named_contains(self.services@, svc_key(), config.name@);
        }
        match found {
            Some(_) => {
                let name_copy = clone_string(&config.name);
                Err(ProcessError::AlreadyRegistered(name_copy))
            },
            None => {
                let id = platform::fresh_id();
                let state = ServiceState {
                    id,
                    config,
                    status: ServiceStatus::Stopped,
                    pid: None,
                    start_time: None,
                    restart_count: 0,
                    last_error: None,
                };
                proof {
                    lemma_named_push(self.services@, svc_key(), state);
                }
                self.services.push(state);
                proof {
                    assert(self@ =~= old(self)@.insert(state.config.name@, state@));
                    assert(named_unique(self.services@, svc_key()));
                    assert(self.children() == old(self).children());
                    assert(forall|n: Seq<char>| #[trigger]
                        self.children().contains_key(n) ==> self@.contains_key(n) && self@[n].status
                            is Running && self@[n].pid == Some(self.children()[n]));
                    assert(forall|n: Seq<char>| #[trigger]
                        self@.contains_key(n) ==> {
                            &&& (self@[n].pid is Some <==> self@[n].status is Running)
                            &&& (self@[n].start_time is Some <==> self@[n].status is Running)
                            &&& (self@[n].status is Running ==> self.children().contains_key(n))
                            &&& self@[n].config.name == n
                        });
                    assert(self.wf());
                }
                Ok(())
            },
        }
    }

    /// Registers the default worker deployment: four co-located
    /// services on their well-known ports, each probed at `/health`
    /// and recorded with restart policy Always. On a fresh registry
    /// all four registrations succeed.
    pub fn initialize_default_services(&mut self) -> (r: Result<(), ProcessError>)
        requires
            old(self).wf(),
        ensures
            final(self).wf(),
            final(self).children() == old(self).children(),
            preserves_existing(old(self)@, final(self)@),
            steps_legal(old(self)@, final(self)@),
            counts_monotone(old(self)@, final(self)@),
            (old(self)@ == Map::<Seq<char>, StateModel>::empty() ==> r is Ok && default_deployed(
                final(self)@,
            ) && final(self)@.dom() == set![
                "ai-engine"@,
                "dsl-parser"@,
                "graph-engine"@,
                "event-processor"@,
            ]),
    {
        let ghost s0 = self@;
        let c1 = build_ai_engine_config();
        let ghost v1 = c1@;
        match self.register_service(c1) {
            Err(e) => {
                proof {
                    lemma_preserve_implies(old(self)@, self@);
                    if s0 == Map::<Seq<char>, StateModel>::empty() {
                        assert(false);
                    }
                }
                return Err(e);
            },
            Ok(_) => {},
        }
        let ghost s1 = self@;
        let c2 = build_dsl_parser_config();
        let ghost v2 = c2@;
        match self.register_service(c2) {
            Err(e) => {
                proof {
                    chain_register(s0, s1, self@);
                    if s0 == Map::<Seq<char>, StateModel>::empty() {
                        reveal_strlit("ai-engine");
                        reveal_strlit("dsl-parser");
                        assert("ai-engine"@.len() == 9);
                        assert("dsl-parser"@.len() == 10);
                        assert(false);
                    }
                }
                return Err(e);
            },
            Ok(_) => {},
        }
        let ghost s2 = self@;
        let c3 = build_graph_engine_config();
        let ghost v3 = c3@;
        match self.register_service(c3) {
            Err(e) => {
                proof {
                    chain_register(s0, s1, s2);
                    chain_register(s0, s2, self@);
                    if s0 == Map::<Seq<char>, StateModel>::empty() {
                        reveal_strlit("ai-engine");
                        reveal_strlit("dsl-parser");
                        reveal_strlit("graph-engine");
                        assert("ai-engine"@.len() == 9);
                        assert("dsl-parser"@.len() == 10);
                        assert("graph-engine"@.len() == 12);
                        assert(false);
                    }
                }
                return Err(e);
            },
            Ok(_) => {},
        }
        let ghost s3 = self@;
        let c4 = build_event_processor_config();
        let ghost v4 = c4@;
        match self.register_service(c4) {
            Err(e) => {
                proof {
                    chain_register(s0, s1, s2);
                    chain_register(s0, s2, s3);
                    chain_register(s0, s3, self@);
                    if s0 == Map::<Seq<char>, StateModel>::empty() {
                        reveal_strlit("ai-engine");
                        reveal_strlit("dsl-parser");
                        reveal_strlit("graph-engine");
                        reveal_strlit("event-processor");
                        assert("ai-engine"@.len() == 9);
                        assert("dsl-parser"@.len() == 10);
                        assert("graph-engine"@.len() == 12);
                        assert("event-processor"@.len() == 15);
                        assert(false);
                    }
                }
                return Err(e);
            },
            Ok(_) => {},
        }
        proof {
            chain_register(s0, s1, s2);
            chain_register(s0, s2, s3);
            chain_register(s0, s3, self@);
            if s0 == Map::<Seq<char>, StateModel>::empty() {
                reveal_strlit("ai-engine");
                reveal_strlit("dsl-parser");
                reveal_strlit("graph-engine");
                reveal_strlit("event-processor");
                assert("ai-engine"@.len() == 9);
                assert("dsl-parser"@.len() == 10);
                assert("graph-engine"@.len() == 12);
                assert("event-processor"@.len() == 15);
                let st1 = choose|id: u128|
                    s1 == s0.insert(
                        v1.name,
                        StateModel {
                            id,
                            config: v1,
                            status: ServiceStatus::Stopped,
                            pid: None,
                            start_time: None,
                            restart_count: 0,
                            last_error: None,
                        },
                    );
                let st2 = choose|id: u128|
                    s2 == s1.insert(
                        v2.name,
                        StateModel {
                            id,
                            config: v2,
                            status: ServiceStatus::Stopped,
                            pid: None,
                            start_time: None,
                            restart_count: 0,
                            last_error: None,
                        },
                    );
                let st3 = choose|id: u128|
                    s3 == s2.insert(
                        v3.name,
                        StateModel {
                            id,
                            config: v3,
                            status: ServiceStatus::Stopped,
                            pid: None,
                            start_time: None,
                            restart_count: 0,
                            last_error: None,
                        },
                    );
                let st4 = choose|id: u128|
                    self@ == s3.insert(
                        v4.name,
                        StateModel {
                            id,
                            config: v4,
                            status: ServiceStatus::Stopped,
                            pid: None,
                            start_time: None,
                            restart_count: 0,
                            last_error: None,
                        },
                    );
                assert(default_deployed(self@));
                assert(self@.dom() =~= set![
                    "ai-engine"@,
                    "dsl-parser"@,
                    "graph-engine"@,
                    "event-processor"@,
                ]);
            }
        }
        Ok(())
    }

    /// A snapshot of one service's record; NotFound for an unknown
    /// name.
    pub fn get_service_status(&self, name: &str) -> (r: Result<ServiceState, ProcessError>)
        requires
            self.wf(),
        ensures
            (self@.contains_key(name@) ==> (r matches Ok(s) && s@ == self@[name@])),
            (!self@.contains_key(name@) ==> (r matches Err(ProcessError::NotFound(n)) && n@
                == name@)),
    {
        let owned = name.to_owned();
        let found = find_service(&self.services, &owned);
        proof {
            lemma_named_contains(self.services@, svc_key(), name@);
        }
        match found {
            Some(i) => {
                proof {
                    lemma_named_index(self.services@, svc_key(), i as int);
                }
                Ok(clone_service_state(&self.services[i]))
            },
            None => Err(ProcessError::NotFound(owned)),
        }
    }

    /// A snapshot of the whole registry: exactly one record per
    /// registered service, each equal to the registry's record for
    /// its name, and no name twice.
    pub fn get_all_services(&self) -> (r: Vec<ServiceState>)
        requires
            self.wf(),
        ensures
            r@.len() == self@.dom().len(),
            forall|i: int|
                0 <= i < r@.len() ==> #[trigger] self@.contains_key(r@[i].config.name@) && self@[
                    r@[i].config.name@
                ] == r@[i]@,
            forall|i: int, j: int|
                0 <= i < j < r@.len() ==> r@[i].config.name@ != r@[j].config.name@,
    {
        proof {
            lemma_named_dom_len(self.services@, svc_key());
            assert(self@.dom() =~= named_map(self.services@, svc_key()).dom());
        }
        let mut r: Vec<ServiceState> = Vec::new();
        let mut i: usize = 0;
        while i < self.services.len()
            invariant
                self.wf(),
                i <= self.services@.len(),
                r@.len() == i,
                forall|j: int|
                    0 <= j < i ==> #[trigger] self@.contains_key(r@[j].config.name@) && self@[
                        r@[j].config.name@
                    ] == r@[j]@ ,
                forall|j: int| 0 <= j < i ==> #[trigger] r@[j].config.name@
                    == svc_key()(self.services@[j]),
            decreases self.services@.len() - i,
        {
            proof {
                lemma_named_index(self.services@, svc_key(), i as int);
            }
            let copy = clone_service_state(&self.services[i]);
            r.push(copy);
            i = i + 1;
        }
        proof {
            assert forall|a: int, b: int|
                0 <= a < b < r@.len() implies r@[a].config.name@ != r@[b].config.name@ by {
                assert(r@[a].config.name@ == svc_key()(self.services@[a]));
                assert(r@[b].config.name@ == svc_key()(self.services@[b]));
            }
        }
        r
    }

    /// First half of a start: checks the service may start (it must
    /// exist and be Stopped or Failed), records status Starting and
    /// hands back the configuration to spawn. The caller performs
    /// the spawn and reports its outcome to `finish_start`.
    pub fn start_service(&mut self, name: &str) -> (r: Result<ServiceConfig, ProcessError>)
        requires
            old(self).wf(),
        ensures
            final(self).wf(),
            final(self).children() == old(self).children(),
            (!old(self)@.contains_key(name@) ==> (r matches Err(ProcessError::NotFound(n)) && n@
                == name@ && final(self)@ == old(self)@)),
            (old(self)@.contains_key(name@) && !(old(self)@[name@].status is Stopped || old(
                self,
            )@[name@].status is Failed) ==> (r matches Err(ProcessError::InvalidState(n)) && n@
                == name@ && final(self)@ == old(self)@)),
            (old(self)@.contains_key(name@) && (old(self)@[name@].status is Stopped || old(
                self,
            )@[name@].status is Failed) ==> (r matches Ok(cfg) && cfg@ == old(self)@[name@].config
                && final(self)@ == old(self)@.insert(
                name@,
                StateModel { status: ServiceStatus::Starting, ..old(self)@[name@] },
            ))),
            steps_legal(old(self)@, final(self)@),
            counts_monotone(old(self)@, final(self)@),
    {
        let owned = name.to_owned();
        let found = find_service(&self.services, &owned);
        proof {
            lemma_named_contains(self.services@, svc_key(), name@);
        }
        match found {
            None => Err(ProcessError::NotFound(owned)),
            Some(i) => {
                proof {
                    lemma_named_index(self.services@, svc_key(), i as int);
                }
                let startable = match self.services[i].status {
                    ServiceStatus::Stopped => true,
                    ServiceStatus::Failed => true,
                    _ => false,
                };
                if !startable {
                    return Err(ProcessError::InvalidState(owned));
                }
                let ghost pre = self.services@;
                proof {
                    lemma_named_remove(self.services@, svc_key(), i as int);
                }
                let mut rec = self.services.remove(i);
                let cfg = clone_config(&rec.config);
                rec.status = ServiceStatus::Starting;
                proof {
                    assert(forall|j: int|
                        0 <= j < self.services@.len() ==> svc_key()(self.services@[j]) != name@) by {
                        assert(forall|j: int|
                            0 <= j < self.services@.len() ==> #[trigger] self.services@[j] == if j
                                < i {
                                pre[j]
                            } else {
                                pre[j + 1]
                            });
                    }
                    lemma_named_push(self.services@, svc_key(), rec);
                }
                self.services.push(rec);
                proof {
                    assert(self@ =~= old(self)@.insert(
                        name@,
                        StateModel { status: ServiceStatus::Starting, ..old(self)@[name@] },
                    ));
                    assert(old(self)@.contains_key(name@));
                    assert(old(self)@[name@].pid is None);
                    assert(old(self)@[name@].start_time is None);
                    if old(self).children().contains_key(name@) {
                        assert(old(self)@[name@].status is Running);
                        assert(false);
                    }
                    assert_wf_after(*old(self), *self, name@);
                }
                Ok(cfg)
            },
        }
    }

    /// Second half of a start: records the spawn outcome for a
    /// service in Starting. A pid moves the service to Running,
    /// recording the pid, the start wall clock and the child, and
    /// returns the service's identity; an error message moves it to
    /// Failed and is both recorded and returned.
    pub fn finish_start(&mut self, name: &str, spawn_result: Result<u32, String>) -> (r: Result<
        u128,
        ProcessError,
    >)
        requires
            old(self).wf(),
        ensures
            final(self).wf(),
            (!old(self)@.contains_key(name@) ==> (r matches Err(ProcessError::NotFound(n)) && n@
                == name@ && final(self)@ == old(self)@ && final(self).children() == old(
                self,
            ).children())),
            (old(self)@.contains_key(name@) && !(old(self)@[name@].status is Starting) ==> (r
                matches Err(ProcessError::InvalidState(n)) && n@ == name@ && final(self)@ == old(
                self,
            )@ && final(self).children() == old(self).children())),
            (old(self)@.contains_key(name@) && old(self)@[name@].status is Starting ==> (
            spawn_result matches Ok(pid) ==> {
                &&& r == Ok::<u128, ProcessError>(old(self)@[name@].id)
                &&& exists|t: u64|
                    final(self)@ == old(self)@.insert(
                        name@,
                        #[trigger] started_model(old(self)@[name@], pid, t),
                    )
                &&& final(self).children() == old(self).children().insert(name@, pid)
            })),
            (old(self)@.contains_key(name@) && old(self)@[name@].status is Starting ==> (
            spawn_result matches Err(msg) ==> {
                &&& (r matches Err(ProcessError::SpawnFailed(m)) && m@ == msg@)
                &&& final(self)@ == old(self)@.insert(
                    name@,
                    StateModel {
                        status: ServiceStatus::Failed,
                        last_error: Some(msg@),
                        ..old(self)@[name@]
                    },
                )
                &&& final(self).children() == old(self).children()
            })),
            steps_legal(old(self)@, final(self)@),
            counts_monotone(old(self)@, final(self)@),
    {
        let owned = name.to_owned();
        let found = find_service(&self.services, &owned);
        proof {
            lemma_named_contains(self.services@, svc_key(), name@);
        }
        match found {
            None => Err(ProcessError::NotFound(owned)),
            Some(i) => {
                proof {
                    lemma_named_index(self.services@, svc_key(), i as int);
                }
                let starting = match self.services[i].status {
                    ServiceStatus::Starting => true,
                    _ => false,
                };
                if !starting {
                    return Err(ProcessError::InvalidState(owned));
                }
                let ghost pre = self.services@;
                proof {
                    lemma_named_remove(self.services@, svc_key(), i as int);
                }
                let mut rec = self.services.remove(i);
                proof {
                    assert(forall|j: int|
                        0 <= j < self.services@.len() ==> svc_key()(self.services@[j]) != name@) by {
                        assert(forall|j: int|
                            0 <= j < self.services@.len() ==> #[trigger] self.services@[j] == if j
                                < i {
                                pre[j]
                            } else {
                                pre[j + 1]
                            });
                    }
                    assert(old(self)@.contains_key(name@));
                    assert(old(self)@[name@] == pre[i as int]@);
                    assert(old(self)@[name@].status is Starting);
                    assert(old(self)@[name@].pid is None);
                    assert(old(self)@[name@].start_time is None);
                    if old(self).children().contains_key(name@) {
                        assert(old(self)@[name@].status is Running);
                        assert(false);
                    }
                }
                match spawn_result {
                    Ok(pid) => {
                        let id = rec.id;
                        rec.status = ServiceStatus::Running;
                        rec.pid = Some(pid);
                        let t = platform::current_unix_seconds();
                        rec.start_time = Some(t);
                        proof {
                            lemma_named_push(self.services@, svc_key(), rec);
                        }
                        self.services.push(rec);
                        proof {
                            lemma_named_contains(self.processes@, proc_key(), name@);
                            assert(!named_map(self.processes@, proc_key()).contains_key(name@));
                            assert(forall|j: int|
                                0 <= j < self.processes@.len() ==> proc_key()(self.processes@[j])
                                    != name@);
                            lemma_named_push(self.processes@, proc_key(), (owned, pid));
                        }
                        self.processes.push((owned, pid));
                        proof {
                            assert(self@ =~= old(self)@.insert(
                                name@,
                                started_model(old(self)@[name@], pid, t),
                            ));
                            assert(self.children() =~= old(self).children().insert(name@, pid));
                            assert_wf_after(*old(self), *self, name@);
                        }
                        Ok(id)
                    },
                    Err(msg) => {
                        let msg_copy = clone_string(&msg);
                        rec.status = ServiceStatus::Failed;
                        rec.last_error = Some(msg);
                        proof {
                            lemma_named_push(self.services@, svc_key(), rec);
                        }
                        self.services.push(rec);
                        proof {
                            assert(self@ =~= old(self)@.insert(
                                name@,
                                StateModel {
                                    status: ServiceStatus::Failed,
                                    last_error: Some(msg_copy@),
                                    ..old(self)@[name@]
                                },
                            ));
                            assert(self.children() =~= old(self).children());
                            assert_wf_after(*old(self), *self, name@);
                        }
                        Err(ProcessError::SpawnFailed(msg_copy))
                    },
                }
            },
        }
    }

    /// Records a stop: forgets the tracked child, clears the pid and
    /// start time and sets status Stopped. The caller kills the
    /// child reported by `child_pid` before calling this; an unknown
    /// or untracked name is not an error.
    pub fn stop_service(&mut self, name: &str) -> (r: Result<(), ProcessError>)
        requires
            old(self).wf(),
        ensures
            final(self).wf(),
            r is Ok,
            final(self).children() == old(self).children().remove(name@),
            (!old(self)@.contains_key(name@) ==> final(self)@ == old(self)@),
            (old(self)@.contains_key(name@) ==> final(self)@ == old(self)@.insert(
                name@,
                StateModel {
                    status: ServiceStatus::Stopped,
                    pid: None,
                    start_time: None,
                    ..old(self)@[name@]
                },
            )),
            counts_monotone(old(self)@, final(self)@),
            (old(self)@.contains_key(name@) ==> (old(self)@[name@].status is Running || old(
                self,
            )@[name@].status is Stopped) ==> steps_legal(old(self)@, final(self)@)),
    {
        let owned = name.to_owned();
        self.forget_child(&owned);
        let found = find_service(&self.services, &owned);
        proof {
            lemma_named_contains(self.services@, svc_key(), name@);
        }
        match found {
            None => {
                proof {
                    assert(final(self).children() =~= old(self).children().remove(name@));
                }
                Ok(())
            },
            Some(i) => {
                proof {
                    lemma_named_index(self.services@, svc_key(), i as int);
                }
                let ghost pre = self.services@;
                proof {
                    lemma_named_remove(self.services@, svc_key(), i as int);
                }
                let mut rec = self.services.remove(i);
                rec.status = ServiceStatus::Stopped;
                rec.pid = None;
                rec.start_time = None;
                proof {
                    assert(forall|j: int|
                        0 <= j < self.services@.len() ==> svc_key()(self.services@[j]) != name@) by {
                        assert(forall|j: int|
                            0 <= j < self.services@.len() ==> #[trigger] self.services@[j] == if j
                                < i {
                                pre[j]
                            } else {
                                pre[j + 1]
                            });
                    }
                    lemma_named_push(self.services@, svc_key(), rec);
                }
                self.services.push(rec);
                proof {
                    assert(self@ =~= old(self)@.insert(
                        name@,
                        StateModel {
                            status: ServiceStatus::Stopped,
                            pid: None,
                            start_time: None,
                            ..old(self)@[name@]
                        },
                    ));
                    assert(self.children() =~= old(self).children().remove(name@));
                    assert_wf_after(*old(self), *self, name@);
                }
                Ok(())
            },
        }
    }

    /// First phase of a restart: moves the service to Restarting,
    /// forgets its tracked child and hands back the pid to kill, if
    /// one was tracked. The caller kills that child, waits the
    /// restart delay, and continues with `resume_restart`.
    pub fn restart_service(&mut self, name: &str) -> (r: Result<Option<u32>, ProcessError>)
        requires
            old(self).wf(),
        ensures
            final(self).wf(),
            (!old(self)@.contains_key(name@) ==> (r matches Err(ProcessError::NotFound(n)) && n@
                == name@ && final(self)@ == old(self)@ && final(self).children() == old(
                self,
            ).children())),
            (old(self)@.contains_key(name@) ==> {
                &&& r == Ok::<Option<u32>, ProcessError>(
                    if old(self).children().contains_key(name@) {
                        Some(old(self).children()[name@])
                    } else {
                        None
                    },
                )
                &&& final(self)@ == old(self)@.insert(
                    name@,
                    StateModel {
                        status: ServiceStatus::Restarting,
                        pid: None,
                        start_time: None,
                        ..old(self)@[name@]
                    },
                )
                &&& final(self).children() == old(self).children().remove(name@)
            }),
            steps_legal(old(self)@, final(self)@),
            counts_monotone(old(self)@, final(self)@),
    {
        let owned = name.to_owned();
        let pid = self.child_pid(name);
        let found = find_service(&self.services, &owned);
        proof {
            lemma_named_contains(self.services@, svc_key(), name@);
        }
        match found {
            None => Err(ProcessError::NotFound(owned)),
            Some(i) => {
                proof {
                    lemma_named_index(self.services@, svc_key(), i as int);
                }
                self.forget_child(&owned);
                let ghost pre = self.services@;
                proof {
                    lemma_named_remove(self.services@, svc_key(), i as int);
                }
                let mut rec = self.services.remove(i);
                rec.status = ServiceStatus::Restarting;
                rec.pid = None;
                rec.start_time = None;
                proof {
                    assert(forall|j: int|
                        0 <= j < self.services@.len() ==> svc_key()(self.services@[j]) != name@) by {
                        assert(forall|j: int|
                            0 <= j < self.services@.len() ==> #[trigger] self.services@[j] == if j
                                < i {
                                pre[j]
                            } else {
                                pre[j + 1]
                            });
                    }
                    lemma_named_push(self.services@, svc_key(), rec);
                }
                self.services.push(rec);
                proof {
                    assert(self@ =~= old(self)@.insert(
                        name@,
                        StateModel {
                            status: ServiceStatus::Restarting,
                            pid: None,
                            start_time: None,
                            ..old(self)@[name@]
                        },
                    ));
                    assert(self.children() =~= old(self).children().remove(name@));
                    assert_wf_after(*old(self), *self, name@);
                }
                Ok(pid)
            },
        }
    }

    /// Second phase of a restart, once the old child is gone:
    /// increments the restart count (it never decreases), moves
    /// Restarting on to Starting and hands back the configuration
    /// to spawn; the spawn outcome then goes to `finish_start`.
    pub fn resume_restart(&mut self, name: &str) -> (r: Result<ServiceConfig, ProcessError>)
        requires
            old(self).wf(),
        ensures
            final(self).wf(),
            final(self).children() == old(self).children(),
            (!old(self)@.contains_key(name@) ==> (r matches Err(ProcessError::NotFound(n)) && n@
                == name@ && final(self)@ == old(self)@)),
            (old(self)@.contains_key(name@) && !(old(self)@[name@].status is Restarting) ==> (r
                matches Err(ProcessError::InvalidState(n)) && n@ == name@ && final(self)@ == old(
                self,
            )@)),
            (old(self)@.contains_key(name@) && old(self)@[name@].status is Restarting ==> (r
                matches Ok(cfg) && cfg@ == old(self)@[name@].config && final(self)@ == old(
                self,
            )@.insert(
                name@,
                StateModel {
                    status: ServiceStatus::Starting,
                    restart_count: inc32(old(self)@[name@].restart_count),
                    ..old(self)@[name@]
                },
            ))),
            steps_legal(old(self)@, final(self)@),
            counts_monotone(old(self)@, final(self)@),
    {
        let owned = name.to_owned();
        let found = find_service(&self.services, &owned);
        proof {
            lemma_named_contains(self.services@, svc_key(), name@);
        }
        match found {
            None => Err(ProcessError::NotFound(owned)),
            Some(i) => {
                proof {
                    lemma_named_index(self.services@, svc_key(), i as int);
                }
                let restarting = match self.services[i].status {
                    ServiceStatus::Restarting => true,
                    _ => false,
                };
                if !restarting {
                    return Err(ProcessError::InvalidState(owned));
                }
                let ghost pre = self.services@;
                proof {
                    lemma_named_remove(self.services@, svc_key(), i as int);
                }
                let mut rec = self.services.remove(i);
                let cfg = clone_config(&rec.config);
                rec.status = ServiceStatus::Starting;
                rec.restart_count = if rec.restart_count < u32::MAX {
                    rec.restart_count + 1
                } else {
                    rec.restart_count
                };
                proof {
                    assert(forall|j: int|
                        0 <= j < self.services@.len() ==> svc_key()(self.services@[j]) != name@) by {
                        assert(forall|j: int|
                            0 <= j < self.services@.len() ==> #[trigger] self.services@[j] == if j
                                < i {
                                pre[j]
                            } else {
                                pre[j + 1]
                            });
                    }
                    lemma_named_push(self.services@, svc_key(), rec);
                }
                self.services.push(rec);
                proof {
                    assert(self@ =~= old(self)@.insert(
                        name@,
                        StateModel {
                            status: ServiceStatus::Starting,
                            restart_count: inc32(old(self)@[name@].restart_count),
                            ..old(self)@[name@]
                        },
                    ));
                    assert(self.children() =~= old(self).children());
                    assert(old(self)@.contains_key(name@));
                    assert(old(self)@[name@].pid is None);
                    assert(old(self)@[name@].start_time is None);
                    if old(self).children().contains_key(name@) {
                        assert(old(self)@[name@].status is Running);
                        assert(false);
                    }
                    assert_wf_after(*old(self), *self, name@);
                }
                Ok(cfg)
            },
        }
    }

    /// Drops the child table entry for a name, if present.
    fn forget_child(&mut self, name: &String)
        requires
            named_unique(old(self).processes@, proc_key()),
        ensures
            named_unique(final(self).processes@, proc_key()),
            final(self).services@ == old(self).services@,
            final(self)@ == old(self)@,
            final(self).children() == old(self).children().remove(name@),
    {
        let found = find_child(&self.processes, name);
        proof {
            lemma_named_contains(self.processes@, proc_key(), name@);
        }
        match found {
            None => {
                proof {
                    assert(self.children() =~= old(self).children().remove(name@));
                }
            },
            Some(i) => {
                proof {
                    lemma_named_remove(self.processes@, proc_key(), i as int);
                }
                let _ = self.processes.remove(i);
                proof {
                    assert(self.children() =~= old(self).children().remove(name@));
                }
            },
        }
    }

    /// The data-model invariant, visible to callers: in a
    /// well-formed supervisor every registered record carries a pid
    /// exactly while it is Running, a start time exactly while it is
    /// Running, is filed under its own configured name, and while
    /// Running its pid is the tracked child's. A snapshot returned
    /// for that name therefore satisfies the same.
    pub proof fn lemma_registry_invariant(self, n: Seq<char>)
        requires
            self.wf(),
            self@.contains_key(n),
        ensures
            (self@[n].pid is Some <==> self@[n].status is Running),
            (self@[n].start_time is Some <==> self@[n].status is Running),
            self@[n].config.name == n,
            (self@[n].status is Running ==> self.children().contains_key(n) && self@[n].pid
                == Some(self.children()[n])),
    {
    }

    /// The tracked child pid for a name, if one is tracked.
    pub fn child_pid(&self, name: &str) -> (r: Option<u32>)
        requires
            self.wf(),
        ensures
            (self.children().contains_key(name@) ==> r == Some(self.children()[name@])),
            (!self.children().contains_key(name@) ==> r is None),
    {
        let owned = name.to_owned();
        let found = find_child(&self.processes, &owned);
        proof {
            lemma_named_contains(self.processes@, proc_key(), name@);
        }
        match found {
            Some(i) => {
                proof {
                    lemma_named_index(self.processes@, proc_key(), i as int);
                }
                Some(self.processes[i].1)
            },
            None => None,
        }
    }
}

/// Re-establishes well-formedness after an operation that touched
/// the record of one service and at most that service's child table
/// entry.
proof fn assert_wf_after(pre: LocalProcessManager, post: LocalProcessManager, n: Seq<char>)
    requires
        pre.wf(),
        named_unique(post.services@, svc_key()),
        named_unique(post.processes@, proc_key()),
        post@.contains_key(n),
        others_same(pre@, post@, n),
        post@[n].config.name == n,
        (post@[n].pid is Some <==> post@[n].status is Running),
        (post@[n].start_time is Some <==> post@[n].status is Running),
        (post@[n].status is Running ==> post.children().contains_key(n) && post@[n].pid == Some(
            post.children()[n],
        )),
        (!(post@[n].status is Running) ==> !post.children().contains_key(n)),
        forall|m: Seq<char>|
            m != n ==> ((#[trigger] post.children().contains_key(m) <==> pre.children().contains_key(
                m,
            )) && (pre.children().contains_key(m) ==> post.children()[m] == pre.children()[m])),
    ensures
        post.wf(),
{
    assert forall|m: Seq<char>| #[trigger] post.children().contains_key(m) implies post@.contains_key(
        m,
    ) && post@[m].status is Running && post@[m].pid == Some(post.children()[m]) by {
        if m != n {
            assert(pre.children().contains_key(m));
            assert(pre@.contains_key(m));
            assert(pre@[m].status is Running);
            assert(pre@[m].pid == Some(pre.children()[m]));
            assert(post@.contains_key(m));
            assert(post@[m] == pre@[m]);
            assert(post.children()[m] == pre.children()[m]);
        }
    }
    assert forall|m: Seq<char>| #[trigger] post@.contains_key(m) implies {
        &&& (post@[m].pid is Some <==> post@[m].status is Running)
        &&& (post@[m].start_time is Some <==> post@[m].status is Running)
        &&& (post@[m].status is Running ==> post.children().contains_key(m))
        &&& post@[m].config.name == m
    } by {
        if m != n {
            assert(pre@.contains_key(m));
            if pre@[m].status is Running {
                assert(pre.children().contains_key(m));
            }
        }
    }
}


/// Steps that change nothing observable satisfy the lifecycle and
/// monotonicity laws outright.
proof fn lemma_preserve_implies(a: Map<Seq<char>, StateModel>, b: Map<Seq<char>, StateModel>)
    requires
        preserves_existing(a, b),
    ensures
        steps_legal(a, b),
        counts_monotone(a, b),
{
}

/// Composes two registration steps: what both kept, the composition
/// kept, and the laws hold across it.
proof fn chain_register(
    base: Map<Seq<char>, StateModel>,
    mid: Map<Seq<char>, StateModel>,
    cur: Map<Seq<char>, StateModel>,
)
    requires
        preserves_existing(base, mid),
        forall|n: Seq<char>| #[trigger] base.contains_key(n) ==> mid.contains_key(n),
        preserves_existing(mid, cur),
        forall|n: Seq<char>| #[trigger] mid.contains_key(n) ==> cur.contains_key(n),
    ensures
        preserves_existing(base, cur),
        forall|n: Seq<char>| #[trigger] base.contains_key(n) ==> cur.contains_key(n),
        steps_legal(base, cur),
        counts_monotone(base, cur),
{
    assert forall|m: Seq<char>|
        base.contains_key(m) && #[trigger] cur.contains_key(m) implies cur[m] == base[m] by {
        assert(mid.contains_key(m));
    }
    lemma_preserve_implies(base, cur);
}

/// Builds the default ai-engine configuration.
fn build_ai_engine_config() -> (c: ServiceConfig)
    ensures
        c@ == ai_engine_config(),
{
    let mut args: Vec<String> = Vec::new();
    args.push("-m".to_owned());
    args.push("uvicorn".to_owned());
    args.push("main:app".to_owned());
    args.push("--reload".to_owned());
    let c = ServiceConfig {
        name: "ai-engine".to_owned(),
        path: "python3".to_owned(),
        args,
        port: Some(8000),
        health_endpoint: Some("/health".to_owned()),
        startup_timeout: 30,
        restart_policy: RestartPolicy::Always,
    };
    proof {
        assert(view_string_seq(c.args@) =~= seq!["-m"@, "uvicorn"@, "main:app"@, "--reload"@]);
    }
    c
}

/// Builds the default dsl-parser configuration.
fn build_dsl_parser_config() -> (c: ServiceConfig)
    ensures
        c@ == dsl_parser_config(),
{
    let mut args: Vec<String> = Vec::new();
    args.push("--server".to_owned());
    let c = ServiceConfig {
        name: "dsl-parser".to_owned(),
        path: "dsl-parser".to_owned(),
        args,
        port: Some(8001),
        health_endpoint: Some("/health".to_owned()),
        startup_timeout: 10,
        restart_policy: RestartPolicy::Always,
    };
    proof {
        assert(view_string_seq(c.args@) =~= seq!["--server"@]);
    }
    c
}

/// Builds the default graph-engine configuration.
fn build_graph_engine_config() -> (c: ServiceConfig)
    ensures
        c@ == graph_engine_config(),
{
    let mut args: Vec<String> = Vec::new();
    args.push("--port".to_owned());
    args.push("8002".to_owned());
    let c = ServiceConfig {
        name: "graph-engine".to_owned(),
        path: "./main".to_owned(),
        args,
        port: Some(8002),
        health_endpoint: Some("/health".to_owned()),
        startup_timeout: 15,
        restart_policy: RestartPolicy::Always,
    };
    proof {
        assert(view_string_seq(c.args@) =~= seq!["--port"@, "8002"@]);
    }
    c
}

/// Builds the default event-processor configuration.
fn build_event_processor_config() -> (c: ServiceConfig)
    ensures
        c@ == event_processor_config(),
{
    let mut args: Vec<String> = Vec::new();
    args.push("-S".to_owned());
    args.push("mix".to_owned());
    args.push("phx.server".to_owned());
    let c = ServiceConfig {
        name: "event-processor".to_owned(),
        path: "elixir".to_owned(),
        args,
        port: Some(8003),
        health_endpoint: Some("/health".to_owned()),
        startup_timeout: 20,
        restart_policy: RestartPolicy::Always,
    };
    proof {
        assert(view_string_seq(c.args@) =~= seq!["-S"@, "mix"@, "phx.server"@]);
    }
    c
}

/// Linear search of the registry for a name.
fn find_service(services: &Vec<ServiceState>, name: &String) -> (r: Option<usize>)
    ensures
        match r {
            Some(i) => i < services@.len() && services@[i as int].config.name@ == name@,
            None => forall|i: int| 0 <= i < services@.len() ==> services@[i].config.name@ != name@,
        },
{
    let mut i: usize = 0;
    while i < services.len()
        invariant
            i <= services@.len(),
            forall|j: int| 0 <= j < i ==> services@[j].config.name@ != name@,
        decreases services@.len() - i,
    {
        if services[i].config.name.eq(name) {
            return Some(i);
        }
        i = i + 1;
    }
    None
}

/// Linear search of the child table for a name.
fn find_child(processes: &Vec<(String, u32)>, name: &String) -> (r: Option<usize>)
    ensures
        match r {
            Some(i) => i < processes@.len() && processes@[i as int].0@ == name@,
            None => forall|i: int| 0 <= i < processes@.len() ==> processes@[i].0@ != name@,
        },
{
    let mut i: usize = 0;
    while i < processes.len()
        invariant
            i <= processes@.len(),
            forall|j: int| 0 <= j < i ==> processes@[j].0@ != name@,
        decreases processes@.len() - i,
    {
        if processes[i].0.eq(name) {
            return Some(i);
        }
        i = i + 1;
    }
    None
}

/// Copies a string, preserving its characters.
fn clone_string(s: &String) -> (r: String)
    ensures
        r == *s,
{
    s.clone()
}

/// Copies an optional string, preserving its shape and characters.
fn clone_opt_string(s: &Option<String>) -> (r: Option<String>)
    ensures
        view_opt_string(r) == view_opt_string(*s),
{
    match s {
        Some(x) => Some(x.clone()),
        None => None,
    }
}

/// Copies a vector of strings, preserving every element.
fn clone_string_vec(v: &Vec<String>) -> (r: Vec<String>)
    ensures
        view_string_seq(r@) == view_string_seq(v@),
{
    let mut r: Vec<String> = Vec::new();
    let mut i: usize = 0;
    while i < v.len()
        invariant
            i <= v@.len(),
            r@.len() == i,
            forall|j: int| 0 <= j < i ==> #[trigger] r@[j]@ == v@[j]@,
        decreases v@.len() - i,
    {
        r.push(v[i].clone());
        i = i + 1;
    }
    proof {
        assert(view_string_seq(r@) =~= view_string_seq(v@));
    }
    r
}

/// Copies a configuration, preserving its mathematical shape.
pub fn clone_config(c: &ServiceConfig) -> (r: ServiceConfig)
    ensures
        r@ == c@,
{
    ServiceConfig {
        name: clone_string(&c.name),
        path: clone_string(&c.path),
        args: clone_string_vec(&c.args),
        port: c.port,
        health_endpoint: clone_opt_string(&c.health_endpoint),
        startup_timeout: c.startup_timeout,
        restart_policy: c.restart_policy,
    }
}

/// Copies a service record, preserving its mathematical shape.
pub fn clone_service_state(s: &ServiceState) -> (r: ServiceState)
    ensures
        r@ == s@,
{
    ServiceState {
        id: s.id,
        config: clone_config(&s.config),
        status: s.status,
        pid: s.pid,
        start_time: s.start_time,
        restart_count: s.restart_count,
        last_error: clone_opt_string(&s.last_error),
    }
}

} // verus!
