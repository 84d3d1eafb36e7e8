//! The request router: correlated request/response envelopes bound
//! for the worker services over loopback HTTP.
//!
//! The HTTP POST and the reply channel are the embedding program's
//! work; the routing table, the pending-request correlation set and
//! the classification of every reply into a response envelope are
//! decided here.

use crate::decimal::{dec_str, u16_to_string};
use crate::platform;
use crate::types::{IpcMessage, IpcResponse};
use vstd::prelude::*;
use vstd::string::StringExecFns;

verus! {

/// A request is abandoned after this many seconds without a reply.
pub const IPC_TIMEOUT_SECONDS: u64 = 30;

/// The static routing table: each worker's well-known loopback
/// port; an unknown service falls back to the first port.
pub open spec fn port_of(service: Seq<char>) -> u16 {
    if service == "ai-engine"@ {
        8000
    } else if service == "dsl-parser"@ {
        8001
    } else if service == "graph-engine"@ {
        8002
    } else if service == "event-processor"@ {
        8003
    } else {
        8000
    }
}

/// The URL a request for `method` on `service` is posted to.
pub open spec fn api_url(service: Seq<char>, method: Seq<char>) -> Seq<char> {
    "http://localhost:"@ + dec_str(port_of(service) as int) + "/api/"@ + method
}

/// What came back from posting one request over HTTP.
pub enum HttpReply {
    /// A 2xx answer whose body parsed as JSON.
    Success(serde_json::Value),
    /// A 2xx answer whose body did not parse; the parse error text.
    BadBody(String),
    /// A non-2xx answer; the status description.
    HttpError(String),
    /// The request could not be sent or completed; the transport
    /// error text.
    Transport(String),
}

/// The router: the set of in-flight request ids and the set of
/// services a client has been prepared for.
pub struct IpcManager {
    pending_requests: Vec<u128>,
    service_clients: Vec<String>,
}

impl IpcManager {
    /// The ids of the requests in flight.
    pub closed spec fn pending(self) -> Set<u128> {
        Set::new(|id: u128| self.pending_requests@.contains(id))
    }

    /// The services whose HTTP clients are prepared.
    pub closed spec fn clients(self) -> Set<Seq<char>> {
        Set::new(|n: Seq<char>| exists|i: int|
            0 <= i < self.service_clients@.len() && self.service_clients@[i]@ == n)
    }

    pub closed spec fn wf(self) -> bool {
        self.pending_requests@.no_duplicates()
    }

    pub fn new() -> (r: IpcManager)
        ensures
            r.wf(),
            r.pending() == Set::<u128>::empty(),
            r.clients() == Set::<Seq<char>>::empty(),
    {
        let r = IpcManager { pending_requests: Vec::new(), service_clients: Vec::new() };
        proof {
            assert(r.pending() =~= Set::<u128>::empty());
            assert(r.clients() =~= Set::<Seq<char>>::empty());
        }
        r
    }

    /// Prepares a client for each of the four workers.
    pub fn initialize(&mut self) -> (r: Result<(), ()>)
        ensures
            final(self).wf() == old(self).wf(),
            final(self).pending() == old(self).pending(),
            final(self).clients() == old(self).clients().insert("ai-engine"@).insert(
                "dsl-parser"@,
            ).insert("graph-engine"@).insert("event-processor"@),
            r is Ok,
    {
        self.add_client("ai-engine");
        self.add_client("dsl-parser");
        self.add_client("graph-engine");
        self.add_client("event-processor");
        Ok(())
    }

    /// Prepares the client for one service.
    fn add_client(&mut self, name: &str)
        ensures
            final(self).wf() == old(self).wf(),
            final(self).pending() == old(self).pending(),
            final(self).clients() == old(self).clients().insert(name@),
            final(self).pending_requests@ == old(self).pending_requests@,
    {
        self.service_clients.push(name.to_owned());
        proof {
            assert forall|n: Seq<char>|
                self.clients().contains(n) implies old(self).clients().insert(name@).contains(
                n,
            ) by {
                let i = choose|i: int|
                    0 <= i < self.service_clients@.len() && self.service_clients@[i]@ == n;
                if i < old(self).service_clients@.len() {
                    assert(old(self).service_clients@[i]@ == n);
                }
            }
            assert forall|n: Seq<char>|
                old(self).clients().insert(name@).contains(n) implies self.clients().contains(
                n,
            ) by {
                if old(self).clients().contains(n) {
                    let i = choose|i: int|
                        0 <= i < old(self).service_clients@.len() && old(
                            self,
                        ).service_clients@[i]@ == n;
                    assert(self.service_clients@[i]@ == n);
                } else {
                    assert(self.service_clients@[old(self).service_clients@.len() as int]@ == n);
                }
            }
            assert(self.clients() =~= old(self).clients().insert(name@));
            assert(self.pending() =~= old(self).pending());
        }
    }

    /// Whether a client is prepared for this service; a request for
    /// a service without one cannot be forwarded.
    pub fn client_available(&self, service: &str) -> (r: bool)
        ensures
            r == self.clients().contains(service@),
    {
        let owned = service.to_owned();
        let mut i: usize = 0;
        while i < self.service_clients.len()
            invariant
                i <= self.service_clients@.len(),
                forall|j: int| 0 <= j < i ==> self.service_clients@[j]@ != owned@,
                owned@ == service@,
            decreases self.service_clients@.len() - i,
        {
            if self.service_clients[i].eq(&owned) {
                proof {
                    assert(self.clients().contains(service@));
                }
                return true;
            }
            i = i + 1;
        }
        proof {
            assert(!self.clients().contains(service@));
        }
        false
    }

    /// Records a request as in flight. Entries exist exactly while a
    /// request is in flight; correlation is by id alone.
    pub fn register_pending(&mut self, id: u128)
        requires
            old(self).wf(),
        ensures
            final(self).wf(),
            final(self).pending() == old(self).pending().insert(id),
            final(self).clients() == old(self).clients(),
    {
        let mut i: usize = 0;
        while i < self.pending_requests.len()
            invariant
                old(self).wf(),
                i <= self.pending_requests@.len(),
                forall|j: int| 0 <= j < i ==> self.pending_requests@[j] != id,
                self.pending_requests@ == old(self).pending_requests@,
                self.service_clients@ == old(self).service_clients@,
            decreases self.pending_requests@.len() - i,
        {
            if self.pending_requests[i] == id {
                proof {
                    assert(old(self).pending().contains(id));
                    assert(self.pending() =~= old(self).pending().insert(id));
                    assert(self.clients() =~= old(self).clients());
                    assert(self.pending_requests@.no_duplicates());
                    assert(self.wf());
                }
                return ;
            }
            i = i + 1;
        }
        self.pending_requests.push(id);
        proof {
            assert(forall|j: int|
                0 <= j < old(self).pending_requests@.len()
                    ==> #[trigger] self.pending_requests@[j] == old(self).pending_requests@[j]);
            assert(self.pending_requests@.no_duplicates());
            assert forall|e: u128|
                self.pending().contains(e) implies old(self).pending().insert(id).contains(e) by {
                let j = choose|j: int|
                    0 <= j < self.pending_requests@.len() && self.pending_requests@[j] == e;
                if j < old(self).pending_requests@.len() {
                    assert(old(self).pending_requests@[j] == e);
                }
            }
            assert forall|e: u128|
                old(self).pending().insert(id).contains(e) implies self.pending().contains(e) by {
                if e == id {
                    assert(self.pending_requests@[old(self).pending_requests@.len() as int] == e);
                } else {
                    let j = choose|j: int|
                        0 <= j < old(self).pending_requests@.len() && old(
                            self,
                        ).pending_requests@[j] == e;
                    assert(self.pending_requests@[j] == e);
                }
            }
            assert(self.pending() =~= old(self).pending().insert(id));
            assert(self.clients() =~= old(self).clients());
        }
    }

    /// Takes a request out of flight, on response, timeout or error
    /// alike; reports whether it was in flight, which is when a
    /// reply may be delivered to it.
    pub fn resolve_pending(&mut self, id: u128) -> (was_pending: bool)
        requires
            old(self).wf(),
        ensures
            final(self).wf(),
            was_pending == old(self).pending().contains(id),
            final(self).pending() == old(self).pending().remove(id),
            final(self).clients() == old(self).clients(),
    {
        let mut i: usize = 0;
        while i < self.pending_requests.len()
            invariant
                old(self).wf(),
                i <= self.pending_requests@.len(),
                forall|j: int| 0 <= j < i ==> self.pending_requests@[j] != id,
                self.pending_requests@ == old(self).pending_requests@,
                self.service_clients@ == old(self).service_clients@,
            decreases self.pending_requests@.len() - i,
        {
            if self.pending_requests[i] == id {
                let ghost pre = self.pending_requests@;
                let _ = self.pending_requests.remove(i);
                proof {
                    assert(forall|j: int|
                        0 <= j < self.pending_requests@.len()
                            ==> #[trigger] self.pending_requests@[j] == if j < i {
                            pre[j]
                        } else {
                            pre[j + 1]
                        });
                    assert(self.pending_requests@.no_duplicates()) by {
                        assert forall|a: int, b: int|
                            0 <= a < self.pending_requests@.len() && 0 <= b
                                < self.pending_requests@.len() && a != b implies self.pending_requests@[a]
                            != self.pending_requests@[b] by {
                            assert(self.pending_requests@[a] == if a < i {
                                pre[a]
                            } else {
                                pre[a + 1]
                            });
                            assert(self.pending_requests@[b] == if b < i {
                                pre[b]
                            } else {
                                pre[b + 1]
                            });
                        }
                    }
                    assert forall|e: u128|
                        self.pending().contains(e) implies old(self).pending().remove(
                        id,
                    ).contains(e) by {
                        let j = choose|j: int|
                            0 <= j < self.pending_requests@.len() && self.pending_requests@[j] == e;
                        assert(pre.contains(e));
                    }
                    assert forall|e: u128|
                        old(self).pending().remove(id).contains(e) implies self.pending().contains(
                        e,
                    ) by {
                        let j = choose|j: int| 0 <= j < pre.len() && pre[j] == e;
                        if j < i {
                            assert(self.pending_requests@[j] == e);
                        } else if j > i {
                            assert(self.pending_requests@[j - 1] == e);
                        }
                    }
                    assert(self.pending() =~= old(self).pending().remove(id));
                    assert(old(self).pending_requests@[i as int] == id);
                    assert(old(self).pending().contains(id));
                    assert(self.clients() =~= old(self).clients());
                }
                return true;
            }
            i = i + 1;
        }
        proof {
            assert(!old(self).pending().contains(id));
            assert(self.pending() =~= old(self).pending().remove(id));
            assert(self.clients() =~= old(self).clients());
        }
        false
    }

    /// The static routing table as the shell sees it.
    pub fn get_service_port(&self, service: &str) -> (r: u16)
        ensures
            r == port_of(service@),
    {
        service_port(service)
    }
}

/// Resolves a service name against the static routing table.
pub fn service_port(service: &str) -> (r: u16)
    ensures
        r == port_of(service@),
{
    let owned = service.to_owned();
    if owned.eq(&"ai-engine".to_owned()) {
        8000
    } else if owned.eq(&"dsl-parser".to_owned()) {
        8001
    } else if owned.eq(&"graph-engine".to_owned()) {
        8002
    } else if owned.eq(&"event-processor".to_owned()) {
        8003
    } else {
        8000
    }
}

/// Builds the URL a request is posted to.
pub fn request_url(service: &str, method: &str) -> (r: String)
    ensures
        r@ == api_url(service@, method@),
{
    let mut url = "http://localhost:".to_owned();
    let port_str = u16_to_string(service_port(service));
    url.append(port_str.as_str());
    url.append("/api/");
    url.append(method);
    url
}

/// Classifies what came back over HTTP into the response envelope
/// delivered for `request_id`: success exactly for a 2xx answer with
/// a JSON body, which is carried as the data; every other outcome is
/// a failure carrying an error message and no data.
pub fn classify_reply(request_id: u128, reply: HttpReply) -> (r: IpcResponse)
    ensures
        r.request_id == request_id,
        r.wf(),
        (reply is Success <==> r.success),
        (reply matches HttpReply::Success(v) ==> r.data == Some(v) && r.error is None),
        (reply matches HttpReply::BadBody(e) ==> r.data is None && (r.error matches Some(m) && m@
            == "Failed to parse response: "@ + e@)),
        (reply matches HttpReply::HttpError(e) ==> r.data is None && (r.error matches Some(m) && m@
            == "Service returned error: "@ + e@)),
        (reply matches HttpReply::Transport(e) ==> r.data is None && (r.error matches Some(m) && m@
            == e@)),
{
    match reply {
        HttpReply::Success(v) => IpcResponse {
            request_id,
            success: true,
            data: Some(v),
            error: None,
        },
        HttpReply::BadBody(e) => {
            let mut m = "Failed to parse response: ".to_owned();
            m.append(e.as_str());
            IpcResponse { request_id, success: false, data: None, error: Some(m) }
        },
        HttpReply::HttpError(e) => {
            let mut m = "Service returned error: ".to_owned();
            m.append(e.as_str());
            IpcResponse { request_id, success: false, data: None, error: Some(m) }
        },
        HttpReply::Transport(e) => IpcResponse {
            request_id,
            success: false,
            data: None,
            error: Some(e),
        },
    }
}

/// Builds a fresh request envelope for a service and method,
/// stamped with a fresh correlation id and the current wall clock.
pub fn create_ipc_message(service: &str, method: &str, payload: serde_json::Value) -> (r:
    IpcMessage)
    ensures
        r.service@ == service@,
        r.method@ == method@,
        r.payload == payload,
{
    IpcMessage {
        id: platform::fresh_id(),
        service: service.to_owned(),
        method: method.to_owned(),
        payload,
        timestamp: platform::current_unix_seconds(),
    }
}

/// Correlation law: in-flight requests with distinct ids resolve
/// independently. Registering two distinct ids leaves both in
/// flight; resolving one removes exactly it and leaves the other in
/// flight, so each request can only ever receive the reply bound to
/// its own id.
pub proof fn lemma_correlation_uniqueness(p: Set<u128>, id1: u128, id2: u128)
    requires
        id1 != id2,
    ensures
        p.insert(id1).insert(id2).contains(id1),
        p.insert(id1).insert(id2).contains(id2),
        !p.insert(id1).insert(id2).remove(id1).contains(id1),
        p.insert(id1).insert(id2).remove(id1).contains(id2),
{
}

} // verus!
