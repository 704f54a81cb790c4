//! One mock server instance: its configuration, its lifecycle from binding to
//! stopped, and the verdict-recording step applied to every arrived request.

use vstd::prelude::*;
use vstd::string::*;
use crate::contract::{
    Contract, HttpRequest, HttpResponse, OptionalBody, lemma_first_match_unique, spec_has_match,
    spec_match_index, spec_response_equiv,
};

verus! {

/// Options fixed when a server starts and immutable for its lifetime.
#[derive(Clone, Copy, PartialEq, Eq, Structural, Debug)]
pub struct MockServerConfig {
    /// Answer CORS preflight requests directly instead of matching them.
    pub cors_preflight: bool,
    /// Carried for the matching collaborator: reject near-matches.
    pub strict_matching: bool,
}

impl Default for MockServerConfig {
    /// Both options disabled.
    fn default() -> (r: MockServerConfig)
        ensures
            !r.cors_preflight && !r.strict_matching,
    {
        MockServerConfig { cors_preflight: false, strict_matching: false }
    }
}

/// Counters a running server accumulates, one update per served request.
#[derive(Clone, Copy, PartialEq, Eq, Structural, Debug)]
pub struct MockServerMetrics {
    /// Requests classified so far.
    pub requests: u64,
    /// Requests that matched no declared interaction.
    pub requests_in_error: u64,
}

/// One entry of a server's match log, appended in arrival order.
#[verifier::ext_equal]
pub enum MatchRecord {
    /// The request matched the interaction with this description.
    Matched(String),
    /// The request matched nothing: the method and path that arrived.
    Mismatch(String, String),
}

impl MatchRecord {
    /// An owned copy of the record.
    pub fn duplicate(&self) -> (r: MatchRecord)
        ensures
            r == *self,
    {
        match self {
            MatchRecord::Matched(d) => MatchRecord::Matched(d.clone()),
            MatchRecord::Mismatch(m, p) => MatchRecord::Mismatch(m.clone(), p.clone()),
        }
    }
}

/// How many entries of a log are mismatches.
pub open spec fn spec_mismatch_count(log: Seq<MatchRecord>) -> nat
    decreases log.len(),
{
    if log.len() == 0 {
        0
    } else {
        spec_mismatch_count(log.drop_last()) + (if log.last() is Mismatch {
            1nat
        } else {
            0nat
        })
    }
}

/// A log never holds more mismatches than entries.
pub proof fn lemma_mismatch_count_le(log: Seq<MatchRecord>)
    ensures
        spec_mismatch_count(log) <= log.len(),
    decreases log.len(),
{
    if log.len() > 0 {
        lemma_mismatch_count_le(log.drop_last());
    }
}

/// Appending one record raises the mismatch count by one exactly when the
/// record is a mismatch.
pub proof fn lemma_mismatch_count_push(log: Seq<MatchRecord>, r: MatchRecord)
    ensures
        spec_mismatch_count(log.push(r)) == spec_mismatch_count(log) + (if r is Mismatch {
            1nat
        } else {
            0nat
        }),
{
    assert(log.push(r).drop_last() =~= log);
}

/// The lifecycle of one server task.
#[derive(Clone, Copy, PartialEq, Eq, Structural, Debug)]
pub enum ServerStatus {
    /// The socket bind is in progress.
    Starting,
    /// The listener accepts connections and serves requests.
    Running,
    /// The cancellation signal arrived; in-flight requests may still finish.
    ShuttingDown,
    /// The task has exited.
    Stopped,
}

/// One mock server: its identity, resolved port, assigned contract, and the
/// state its serving task mutates on every request.
#[verifier::ext_equal]
pub struct MockServer {
    /// Caller-chosen identifier.
    pub id: String,
    /// The bound port; absent until the bind resolves, then never changed.
    pub port: Option<u16>,
    /// Whether the server speaks TLS.
    pub tls: bool,
    /// The contract served; immutable.
    pub contract: Contract,
    /// Options fixed at start.
    pub config: MockServerConfig,
    /// Where the task stands in its lifecycle.
    pub status: ServerStatus,
    /// Match/mismatch verdicts, strictly in arrival order.
    pub match_log: Vec<MatchRecord>,
    /// Counters derived from the log.
    pub metrics: MockServerMetrics,
}

/// The response a server generates for a CORS preflight request.
pub open spec fn spec_is_cors_response(r: HttpResponse) -> bool {
    &&& r.status == 200
    &&& r.headers@.len() == 1
    &&& r.headers@[0].0@ == "Access-Control-Allow-Origin"@
    &&& r.headers@[0].1@ == "*"@
    &&& r.body is Empty
}

/// The error response a server generates when nothing matches.
pub open spec fn spec_is_no_match_response(r: HttpResponse) -> bool {
    &&& r.status == 500
    &&& r.headers@.len() == 0
    &&& (match r.body {
        OptionalBody::Present(t, ct) => t@ == "No matching interaction found"@ && ct is None,
        _ => false,
    })
}

/// Whether a request is a CORS preflight this server answers directly.
pub open spec fn spec_is_preflight(s: MockServer, req: HttpRequest) -> bool {
    s.config.cors_preflight && req.method@ == "OPTIONS"@
}

/// How serving one request relates a server's state before and after, and the
/// response written back.
pub open spec fn spec_handle_request(pre: MockServer, post: MockServer, req: HttpRequest, resp: HttpResponse) -> bool {
    &&& post.id == pre.id
    &&& post.port == pre.port
    &&& post.tls == pre.tls
    &&& post.contract == pre.contract
    &&& post.config == pre.config
    &&& post.status == pre.status
    &&& if spec_is_preflight(pre, req) {
        &&& post.match_log@ == pre.match_log@
        &&& post.metrics == pre.metrics
        &&& spec_is_cors_response(resp)
    } else if spec_has_match(pre.contract, req.method@, req.path@) {
        let i = spec_match_index(pre.contract, req.method@, req.path@);
        &&& post.match_log@.len() == pre.match_log@.len() + 1
        &&& post.match_log@.drop_last() == pre.match_log@
        &&& (match post.match_log@.last() {
            MatchRecord::Matched(d) => d@ == pre.contract.interactions@[i].description@,
            _ => false,
        })
        &&& post.metrics.requests == pre.metrics.requests + 1
        &&& post.metrics.requests_in_error == pre.metrics.requests_in_error
        &&& spec_response_equiv(resp, pre.contract.interactions@[i].response)
    } else {
        &&& post.match_log@.len() == pre.match_log@.len() + 1
        &&& post.match_log@.drop_last() == pre.match_log@
        &&& (match post.match_log@.last() {
            MatchRecord::Mismatch(m, p) => m@ == req.method@ && p@ == req.path@,
            _ => false,
        })
        &&& post.metrics.requests == pre.metrics.requests + 1
        &&& post.metrics.requests_in_error == pre.metrics.requests_in_error + 1
        &&& spec_is_no_match_response(resp)
    }
}

impl MockServer {
    /// The counters agree with the log, and a resolved port is concrete.
    pub open spec fn wf(&self) -> bool {
        &&& self.metrics.requests == self.match_log@.len()
        &&& self.metrics.requests_in_error == spec_mismatch_count(self.match_log@)
        &&& (match self.port {
            Some(p) => p > 0,
            None => self.status is Starting,
        })
    }

    /// Identity and configuration never change after start.
    pub open spec fn same_identity(pre: MockServer, post: MockServer) -> bool {
        &&& post.id == pre.id
        &&& post.tls == pre.tls
        &&& post.contract == pre.contract
        &&& post.config == pre.config
    }

    /// A new server, its socket bind still in progress: nothing recorded yet.
    pub fn new(id: String, contract: Contract, config: MockServerConfig, tls: bool) -> (r: MockServer)
        ensures
            r.wf(),
            r.id == id,
            r.port is None,
            r.tls == tls,
            r.contract == contract,
            r.config == config,
            r.status is Starting,
            r.match_log@.len() == 0,
            r.metrics.requests == 0,
            r.metrics.requests_in_error == 0,
    {
        MockServer {
            id,
            port: None,
            tls,
            contract,
            config,
            status: ServerStatus::Starting,
            match_log: Vec::new(),
            metrics: MockServerMetrics { requests: 0, requests_in_error: 0 },
        }
    }

    /// The socket is bound: record the resolved port and begin serving.
    pub fn bound(&mut self, port: u16)
        requires
            old(self).wf(),
            old(self).status is Starting,
            port > 0,
        ensures
            final(self).wf(),
            MockServer::same_identity(*old(self), *final(self)),
            final(self).status is Running,
            final(self).port == Some(port),
            final(self).match_log@ == old(self).match_log@,
            final(self).metrics == old(self).metrics,
    {
        self.status = ServerStatus::Running;
        self.port = Some(port);
    }

    /// Serve one arrived request: answer a CORS preflight directly where the
    /// configuration asks for it; otherwise classify the request against the
    /// contract, append the verdict to the log, update the counters, and
    /// return the response to write back. Allowed while running, and for an
    /// in-flight request draining during shutdown.
    pub fn handle_request(&mut self, request: &HttpRequest) -> (r: HttpResponse)
        requires
            old(self).wf(),
            old(self).status is Running || old(self).status is ShuttingDown,
        ensures
            final(self).wf(),
            spec_handle_request(*old(self), *final(self), *request, r),
    {
        let options = String::from_str("OPTIONS");
        if self.config.cors_preflight && request.method == options {
            let mut headers: Vec<(String, String)> = Vec::new();
            headers.push((String::from_str("Access-Control-Allow-Origin"), String::from_str("*")));
            return HttpResponse { status: 200, headers, body: OptionalBody::Empty };
        }
        match self.contract.find_matching_interaction(&request.method, &request.path) {
            Some(i) => {
                let interaction = &self.contract.interactions[i];
                let response = interaction.response.duplicate();
                let record = MatchRecord::Matched(interaction.description.clone());
                proof {
                    lemma_mismatch_count_push(self.match_log@, record);
                    lemma_first_match_unique(
                        self.contract,
                        request.method@,
                        request.path@,
                        i as int,
                        spec_match_index(self.contract, request.method@, request.path@),
                    );
                }
                self.match_log.push(record);
                let n = self.match_log.len();
                self.metrics.requests = n as u64;
                proof {
                    assert(self.match_log@.drop_last() =~= old(self).match_log@);
                }
                response
            },
            None => {
                let record = MatchRecord::Mismatch(request.method.clone(), request.path.clone());
                proof {
                    lemma_mismatch_count_push(self.match_log@, record);
                    lemma_mismatch_count_le(self.match_log@);
                }
                self.match_log.push(record);
                let n = self.match_log.len();
                self.metrics.requests = n as u64;
                self.metrics.requests_in_error = self.metrics.requests_in_error + 1;
                proof {
                    assert(self.match_log@.drop_last() =~= old(self).match_log@);
                }
                HttpResponse {
                    status: 500,
                    headers: Vec::new(),
                    body: OptionalBody::Present(String::from_str("No matching interaction found"), None),
                }
            },
        }
    }

    /// The cancellation signal arrived: stop accepting new connections.
    /// Delivery succeeds only on a running server.
    pub fn shutdown(&mut self) -> (r: bool)
        requires
            old(self).wf(),
        ensures
            final(self).wf(),
            r == (old(self).status is Running),
            MockServer::same_identity(*old(self), *final(self)),
            final(self).port == old(self).port,
            final(self).match_log@ == old(self).match_log@,
            final(self).metrics == old(self).metrics,
            final(self).status == if r {
                ServerStatus::ShuttingDown
            } else {
                old(self).status
            },
    {
        match self.status {
            ServerStatus::Running => {
                self.status = ServerStatus::ShuttingDown;
                true
            },
            _ => false,
        }
    }

    /// The listener drained its last connection: the task exits.
    pub fn mark_stopped(&mut self)
        requires
            old(self).wf(),
            old(self).status is ShuttingDown,
        ensures
            final(self).wf(),
            MockServer::same_identity(*old(self), *final(self)),
            final(self).port == old(self).port,
            final(self).match_log@ == old(self).match_log@,
            final(self).metrics == old(self).metrics,
            final(self).status is Stopped,
    {
        self.status = ServerStatus::Stopped;
    }

    /// An owned snapshot of the match log, in arrival order.
    pub fn matches(&self) -> (r: Vec<MatchRecord>)
        ensures
            r@ == self.match_log@,
    {
        let mut r: Vec<MatchRecord> = Vec::new();
        let mut i: usize = 0;
        while i < self.match_log.len()
            invariant
                i <= self.match_log.len(),
                r@.len() == i as int,
                forall|j: int| 0 <= j < i ==> r@[j] == self.match_log@[j],
            decreases self.match_log.len() - i,
        {
            let rec = self.match_log[i].duplicate();
            r.push(rec);
            i += 1;
        }
        proof {
            assert(r@ =~= self.match_log@);
        }
        r
    }

    /// The request counters.
    pub fn metrics(&self) -> (r: MockServerMetrics)
        ensures
            r == self.metrics,
    {
        self.metrics
    }

    /// Whether every request served so far matched a declared interaction.
    pub fn all_matched(&self) -> (r: bool)
        requires
            self.wf(),
        ensures
            r == (spec_mismatch_count(self.match_log@) == 0),
    {
        self.metrics.requests_in_error == 0
    }

    /// Clear the log and the counters, keeping the server running: the
    /// mutation queries apply between test sessions.
    pub fn reset(&mut self)
        requires
            old(self).wf(),
        ensures
            final(self).wf(),
            MockServer::same_identity(*old(self), *final(self)),
            final(self).port == old(self).port,
            final(self).status == old(self).status,
            final(self).match_log@.len() == 0,
            final(self).metrics.requests == 0,
            final(self).metrics.requests_in_error == 0,
    {
        self.match_log = Vec::new();
        self.metrics = MockServerMetrics { requests: 0, requests_in_error: 0 };
    }
}

} // verus!
