//! The registry of running mock servers: sole owner of the id-to-server map,
//! it starts servers, stops them, and exposes their accumulated state.
//!
//! Binding a socket, delivering a cancellation signal and joining a task are
//! work of the asynchronous shell around the library; each appears here as an
//! outcome parameter, and every registry decision about it is verified for
//! every possible outcome.

use vstd::prelude::*;
use vstd::string::*;
use crate::contract::Contract;
use crate::mock_server::{
    MockServer, MockServerConfig, MockServerMetrics, spec_handle_request,
};
use crate::contract::{HttpRequest, HttpResponse};

verus! {

/// A resolved or requested IPv4 socket address.
#[derive(Clone, Copy)]
pub struct SocketAddress {
    pub ip: [u8; 4],
    pub port: u16,
}

/// What the shell's attempt to bind a listening socket came back with.
pub enum BindOutcome {
    /// The socket is bound to this concrete port.
    Bound(u16),
    /// The address was unavailable, invalid or not permitted.
    BindFailed(String),
}

/// What the shell made of caller-supplied TLS certificate material.
pub enum TlsSetup {
    /// The material is usable.
    Accepted,
    /// The material was malformed.
    Rejected(String),
}

/// Why a start operation returned nothing usable.
#[derive(Debug)]
#[verifier::ext_equal]
pub enum StartError {
    /// The id already names a registered server; nothing was changed.
    DuplicateServerError,
    /// The socket could not be bound.
    BindError(String),
    /// The TLS material was rejected.
    TlsConfigError(String),
}

/// An owned snapshot of one registered server's externally visible state.
pub struct ServerSummary {
    pub id: String,
    pub port: u16,
    pub metrics: MockServerMetrics,
}

/// Whether some registered server carries this id.
pub open spec fn spec_has_id(s: Seq<MockServer>, id: Seq<char>) -> bool {
    exists|i: int| 0 <= i < s.len() && s[i].id@ == id
}

/// Whether some registered server resolved to this port.
pub open spec fn spec_has_port(s: Seq<MockServer>, port: u16) -> bool {
    exists|i: int| 0 <= i < s.len() && s[i].port == Some(port)
}

/// Whether index `i` is the first registered server resolved to this port.
pub open spec fn spec_first_port(s: Seq<MockServer>, port: u16, i: int) -> bool {
    &&& 0 <= i < s.len()
    &&& s[i].port == Some(port)
    &&& forall|j: int| 0 <= j < i ==> s[j].port != Some(port)
}

/// No two registered servers share an id.
pub open spec fn spec_ids_unique(s: Seq<MockServer>) -> bool {
    forall|i: int, j: int| 0 <= i < j < s.len() ==> s[i].id@ != s[j].id@
}

/// Strict lexicographic order on texts, by code point: the empty text comes
/// first, then shorter prefixes before their extensions.
pub open spec fn spec_str_lt(a: Seq<char>, b: Seq<char>) -> bool
    decreases a.len(),
{
    if b.len() == 0 {
        false
    } else if a.len() == 0 {
        true
    } else if (a[0] as u32) < (b[0] as u32) {
        true
    } else if (a[0] as u32) > (b[0] as u32) {
        false
    } else {
        spec_str_lt(a.skip(1), b.skip(1))
    }
}

/// Two characters with one code point are one character.
proof fn lemma_char_eq(c: char, d: char)
    requires
        c as u32 == d as u32,
    ensures
        c == d,
{
}

/// Two texts are ordered one way, the other way, or equal.
pub proof fn lemma_str_lt_trichotomy(a: Seq<char>, b: Seq<char>)
    ensures
        spec_str_lt(a, b) || spec_str_lt(b, a) || a == b,
    decreases a.len(),
{
    if b.len() == 0 {
        if a.len() == 0 {
            assert(a =~= b);
        }
    } else if a.len() == 0 {
    } else if (a[0] as u32) == (b[0] as u32) {
        lemma_str_lt_trichotomy(a.skip(1), b.skip(1));
        if a.skip(1) == b.skip(1) {
            assert(a.skip(1).len() == b.skip(1).len());
            assert(a.len() == b.len());
            lemma_char_eq(a[0], b[0]);
            assert forall|i: int| 0 < i < a.len() implies a[i] == b[i] by {
                assert(a[i] == a.skip(1)[i - 1]);
                assert(b[i] == b.skip(1)[i - 1]);
            }
            assert(a =~= b);
        }
    }
}

/// The order is transitive.
pub proof fn lemma_str_lt_transitive(a: Seq<char>, b: Seq<char>, c: Seq<char>)
    requires
        spec_str_lt(a, b),
        spec_str_lt(b, c),
    ensures
        spec_str_lt(a, c),
    decreases a.len(),
{
    if a.len() > 0 {
        if (a[0] as u32) == (b[0] as u32) && (b[0] as u32) == (c[0] as u32) {
            lemma_str_lt_transitive(a.skip(1), b.skip(1), c.skip(1));
        }
    }
}

/// No text comes before itself.
pub proof fn lemma_str_lt_irreflexive(a: Seq<char>)
    ensures
        !spec_str_lt(a, a),
    decreases a.len(),
{
    if a.len() > 0 {
        lemma_str_lt_irreflexive(a.skip(1));
    }
}

/// Whether `a` comes strictly before `b` in id order.
pub fn str_lt(a: &str, b: &str) -> (r: bool)
    ensures
        r == spec_str_lt(a@, b@),
{
    let na = a.unicode_len();
    let nb = b.unicode_len();
    let mut i: usize = 0;
    proof {
        assert(a@.skip(0) =~= a@);
        assert(b@.skip(0) =~= b@);
    }
    while i < na && i < nb
        invariant
            i <= na,
            i <= nb,
            na == a@.len(),
            nb == b@.len(),
            spec_str_lt(a@, b@) == spec_str_lt(a@.skip(i as int), b@.skip(i as int)),
        decreases na - i,
    {
        let ca = a.get_char(i);
        let cb = b.get_char(i);
        if (ca as u32) < (cb as u32) {
            proof {
                assert(a@.skip(i as int)[0] == ca);
                assert(b@.skip(i as int)[0] == cb);
            }
            return true;
        }
        if (ca as u32) > (cb as u32) {
            proof {
                assert(a@.skip(i as int)[0] == ca);
                assert(b@.skip(i as int)[0] == cb);
            }
            return false;
        }
        proof {
            assert(a@.skip(i as int)[0] == ca);
            assert(b@.skip(i as int)[0] == cb);
            assert(a@.skip(i as int).skip(1) =~= a@.skip(i + 1 as int));
            assert(b@.skip(i as int).skip(1) =~= b@.skip(i + 1 as int));
        }
        i += 1;
    }
    proof {
        if i >= nb {
            assert(b@.skip(i as int).len() == 0);
        } else {
            assert(a@.skip(i as int).len() == 0);
            assert(b@.skip(i as int).len() > 0);
        }
    }
    i < nb
}

/// Registered servers stand in strictly ascending id order.
pub open spec fn spec_ids_sorted(s: Seq<MockServer>) -> bool {
    forall|i: int, j: int| 0 <= i < j < s.len() ==> spec_str_lt(s[i].id@, s[j].id@)
}

/// The registry's invariant over its entries: ascending distinct ids, every
/// server well-formed and running on a resolved port.
pub open spec fn spec_manager_wf(s: Seq<MockServer>) -> bool {
    &&& spec_ids_sorted(s)
    &&& spec_ids_unique(s)
    &&& forall|i: int| 0 <= i < s.len() ==> (#[trigger] s[i]).wf() && s[i].status is Running
        && s[i].port is Some
}

/// What a freshly started server looks like.
pub open spec fn spec_new_running_server(
    s: MockServer,
    id: Seq<char>,
    contract: Contract,
    config: MockServerConfig,
    tls: bool,
    port: u16,
) -> bool {
    &&& s.id@ == id
    &&& s.contract == contract
    &&& s.config == config
    &&& s.tls == tls
    &&& s.status is Running
    &&& s.port == Some(port)
    &&& s.match_log@.len() == 0
    &&& s.metrics.requests == 0
    &&& s.metrics.requests_in_error == 0
}

/// A successful start's effect on the registry: exactly one new entry, the
/// freshly bound server, inserted at its place in id order; every other entry
/// keeps its state and its relative position.
pub open spec fn spec_registered(
    pre: Seq<MockServer>,
    post: Seq<MockServer>,
    id: Seq<char>,
    contract: Contract,
    config: MockServerConfig,
    tls: bool,
    port: u16,
) -> bool {
    exists|k: int|
        #![auto]
        0 <= k <= pre.len() && post.len() == pre.len() + 1 && post == pre.insert(k, post[k])
            && spec_new_running_server(post[k], id, contract, config, tls, port)
}

/// The registry of running mock servers. It is the sole writer of map
/// membership: an id maps to at most one server, a start inserts exactly one
/// entry, a successful shutdown removes exactly that entry, and queries never
/// change membership.
pub struct ServerManager {
    /// The registered servers, in ascending id order.
    pub servers: Vec<MockServer>,
}

impl ServerManager {
    /// Every registered server is well-formed, running on a resolved port,
    /// and the ids are distinct and ascending.
    pub open spec fn wf(&self) -> bool {
        spec_manager_wf(self.servers@)
    }

    /// An empty registry.
    pub fn new() -> (r: ServerManager)
        ensures
            r.wf(),
            r.servers@.len() == 0,
    {
        ServerManager { servers: Vec::new() }
    }

    /// Whether this id names a registered server.
    pub fn has_server(&self, id: &String) -> (r: bool)
        ensures
            r == spec_has_id(self.servers@, id@),
    {
        let mut k: usize = 0;
        while k < self.servers.len()
            invariant
                k <= self.servers.len(),
                forall|j: int| 0 <= j < k ==> self.servers@[j].id@ != id@,
            decreases self.servers.len() - k,
        {
            if self.servers[k].id == *id {
                return true;
            }
            k += 1;
        }
        false
    }

    /// The index of the first registered server resolved to this port.
    fn index_of_port(&self, port: u16) -> (r: Option<usize>)
        requires
            self.wf(),
        ensures
            (match r {
                Some(k) => spec_first_port(self.servers@, port, k as int),
                None => !spec_has_port(self.servers@, port),
            }),
    {
        let mut k: usize = 0;
        while k < self.servers.len()
            invariant
                k <= self.servers.len(),
                self.wf(),
                forall|j: int| 0 <= j < k ==> self.servers@[j].port != Some(port),
            decreases self.servers.len() - k,
        {
            let matches_port = match self.servers[k].port {
                Some(p) => p == port,
                None => false,
            };
            if matches_port {
                return Some(k);
            }
            k += 1;
        }
        None
    }

    /// Start a new plain server: with the socket bound, register the server
    /// and return the resolved address, the OS-assigned port substituted when
    /// the requested one was 0. A failed bind or a duplicate id registers
    /// nothing.
    pub fn start_mock_server_with_addr(
        &mut self,
        id: String,
        contract: Contract,
        addr: SocketAddress,
        config: MockServerConfig,
        bind: BindOutcome,
    ) -> (r: Result<SocketAddress, StartError>)
        requires
            old(self).wf(),
            (match bind {
                BindOutcome::Bound(p) => p > 0 && (addr.port != 0 ==> p == addr.port),
                BindOutcome::BindFailed(_) => true,
            }),
        ensures
            final(self).wf(),
            (match bind {
                BindOutcome::BindFailed(msg) => {
                    &&& r == Err::<SocketAddress, StartError>(StartError::BindError(msg))
                    &&& final(self).servers@ == old(self).servers@
                },
                BindOutcome::Bound(p) => {
                    if spec_has_id(old(self).servers@, id@) {
                        &&& r == Err::<SocketAddress, StartError>(StartError::DuplicateServerError)
                        &&& final(self).servers@ == old(self).servers@
                    } else {
                        &&& (match r {
                            Ok(a) => a.ip == addr.ip && a.port == p,
                            Err(_) => false,
                        })
                        &&& spec_registered(
                            old(self).servers@,
                            final(self).servers@,
                            id@,
                            contract,
                            config,
                            false,
                            p,
                        )
                    }
                },
            }),
    {
        match bind {
            BindOutcome::BindFailed(msg) => Err(StartError::BindError(msg)),
            BindOutcome::Bound(p) => {
                if self.has_server(&id) {
                    Err(StartError::DuplicateServerError)
                } else {
                    self.register(id, contract, config, false, p);
                    Ok(SocketAddress { ip: addr.ip, port: p })
                }
            },
        }
    }

    /// Insert a freshly bound server, under an id not yet registered, at its
    /// place in id order.
    fn register(&mut self, id: String, contract: Contract, config: MockServerConfig, tls: bool, port: u16)
        requires
            old(self).wf(),
            !spec_has_id(old(self).servers@, id@),
            port > 0,
        ensures
            final(self).wf(),
            spec_registered(old(self).servers@, final(self).servers@, id@, contract, config, tls, port),
    {
        let ghost old_servers = self.servers@;
        let mut server = MockServer::new(id, contract, config, tls);
        server.bound(port);
        let mut pos: usize = 0;
        while pos < self.servers.len() && str_lt(self.servers[pos].id.as_str(), server.id.as_str())
            invariant
                pos <= self.servers@.len(),
                self.servers@ == old_servers,
                old_servers == old(self).servers@,
                spec_new_running_server(server, id@, contract, config, tls, port),
                forall|j: int| 0 <= j < pos ==> spec_str_lt(self.servers@[j].id@, server.id@),
            decreases self.servers.len() - pos,
        {
            pos += 1;
        }
        proof {
            if (pos as int) < old_servers.len() {
                assert(old_servers[pos as int].id@ != server.id@) by {
                    if old_servers[pos as int].id@ == server.id@ {
                        assert(spec_has_id(old_servers, server.id@));
                    }
                }
                lemma_str_lt_trichotomy(old_servers[pos as int].id@, server.id@);
                assert(spec_str_lt(server.id@, old_servers[pos as int].id@));
            }
        }
        self.servers.insert(pos, server);
        proof {
            let post = self.servers@;
            assert(post == old_servers.insert(pos as int, server));
            assert forall|i: int, j: int| 0 <= i < j < post.len() implies spec_str_lt(
                post[i].id@,
                post[j].id@,
            ) by {
                let i0 = if i < pos as int {
                    i
                } else {
                    i - 1
                };
                let j0 = if j < pos as int {
                    j
                } else {
                    j - 1
                };
                if i == pos as int {
                    assert(spec_str_lt(server.id@, old_servers[pos as int].id@));
                    if j0 > pos as int {
                        assert(spec_str_lt(old_servers[pos as int].id@, old_servers[j0].id@));
                        lemma_str_lt_transitive(
                            server.id@,
                            old_servers[pos as int].id@,
                            old_servers[j0].id@,
                        );
                    }
                } else if j == pos as int {
                    assert(spec_str_lt(old_servers[i0].id@, server.id@));
                } else {
                    assert(post[i].id@ == old_servers[i0].id@);
                    assert(post[j].id@ == old_servers[j0].id@);
                    if i0 < j0 {
                        assert(spec_str_lt(old_servers[i0].id@, old_servers[j0].id@));
                    } else {
                        assert(i0 == j0 && i < pos as int && j > pos as int);
                        assert(spec_str_lt(old_servers[i0].id@, server.id@));
                        assert(spec_str_lt(server.id@, old_servers[j0].id@));
                        lemma_str_lt_transitive(old_servers[i0].id@, server.id@, old_servers[j0].id@);
                    }
                }
            }
            assert forall|i: int, j: int| 0 <= i < j < post.len() implies post[i].id@
                != post[j].id@ by {
                assert(spec_str_lt(post[i].id@, post[j].id@));
                lemma_str_lt_irreflexive(post[i].id@);
            }
            assert forall|i: int| 0 <= i < post.len() implies (#[trigger] post[i]).wf()
                && post[i].status is Running && post[i].port is Some by {
                if i < pos as int {
                    assert(post[i] == old_servers[i]);
                } else if i > pos as int {
                    assert(post[i] == old_servers[i - 1]);
                }
            }
            assert(spec_registered(old_servers, post, id@, contract, config, tls, port)) by {
                assert(post == old_servers.insert(pos as int, post[pos as int]));
            }
        }
    }

    /// As `start_mock_server_with_addr`, for an address given as a port
    /// alone: the listener binds every interface, and the resolved port comes
    /// back.
    pub fn start_mock_server(
        &mut self,
        id: String,
        contract: Contract,
        port: u16,
        config: MockServerConfig,
        bind: BindOutcome,
    ) -> (r: Result<u16, StartError>)
        requires
            old(self).wf(),
            (match bind {
                BindOutcome::Bound(p) => p > 0 && (port != 0 ==> p == port),
                BindOutcome::BindFailed(_) => true,
            }),
        ensures
            final(self).wf(),
            (match bind {
                BindOutcome::BindFailed(msg) => {
                    &&& r == Err::<u16, StartError>(StartError::BindError(msg))
                    &&& final(self).servers@ == old(self).servers@
                },
                BindOutcome::Bound(p) => {
                    if spec_has_id(old(self).servers@, id@) {
                        &&& r == Err::<u16, StartError>(StartError::DuplicateServerError)
                        &&& final(self).servers@ == old(self).servers@
                    } else {
                        &&& r == Ok::<u16, StartError>(p)
                        &&& p > 0
                        &&& spec_registered(
                            old(self).servers@,
                            final(self).servers@,
                            id@,
                            contract,
                            config,
                            false,
                            p,
                        )
                    }
                },
            }),
    {
        let addr = SocketAddress { ip: [0, 0, 0, 0], port };
        match self.start_mock_server_with_addr(id, contract, addr, config, bind) {
            Ok(a) => Ok(a.port),
            Err(e) => Err(e),
        }
    }

    /// Start a new TLS server. Malformed certificate material fails the
    /// operation before anything binds; otherwise the contract of
    /// `start_mock_server_with_addr` holds, with the server marked TLS.
    pub fn start_tls_mock_server_with_addr(
        &mut self,
        id: String,
        contract: Contract,
        addr: SocketAddress,
        tls: TlsSetup,
        config: MockServerConfig,
        bind: BindOutcome,
    ) -> (r: Result<SocketAddress, StartError>)
        requires
            old(self).wf(),
            (match bind {
                BindOutcome::Bound(p) => p > 0 && (addr.port != 0 ==> p == addr.port),
                BindOutcome::BindFailed(_) => true,
            }),
        ensures
            final(self).wf(),
            (match tls {
                TlsSetup::Rejected(msg) => {
                    &&& r == Err::<SocketAddress, StartError>(StartError::TlsConfigError(msg))
                    &&& final(self).servers@ == old(self).servers@
                },
                TlsSetup::Accepted => (match bind {
                    BindOutcome::BindFailed(msg) => {
                        &&& r == Err::<SocketAddress, StartError>(StartError::BindError(msg))
                        &&& final(self).servers@ == old(self).servers@
                    },
                    BindOutcome::Bound(p) => {
                        if spec_has_id(old(self).servers@, id@) {
                            &&& r == Err::<SocketAddress, StartError>(StartError::DuplicateServerError)
                            &&& final(self).servers@ == old(self).servers@
                        } else {
                            &&& (match r {
                                Ok(a) => a.ip == addr.ip && a.port == p,
                                Err(_) => false,
                            })
                            &&& spec_registered(
                                old(self).servers@,
                                final(self).servers@,
                                id@,
                                contract,
                                config,
                                true,
                                p,
                            )
                        }
                    },
                }),
            }),
    {
        match tls {
            TlsSetup::Rejected(msg) => Err(StartError::TlsConfigError(msg)),
            TlsSetup::Accepted => match bind {
                BindOutcome::BindFailed(msg) => Err(StartError::BindError(msg)),
                BindOutcome::Bound(p) => {
                    if self.has_server(&id) {
                        Err(StartError::DuplicateServerError)
                    } else {
                        self.register(id, contract, config, true, p);
                        Ok(SocketAddress { ip: addr.ip, port: p })
                    }
                },
            },
        }
    }

    /// As `start_tls_mock_server_with_addr`, for an address given as a port.
    pub fn start_tls_mock_server(
        &mut self,
        id: String,
        contract: Contract,
        port: u16,
        tls: TlsSetup,
        config: MockServerConfig,
        bind: BindOutcome,
    ) -> (r: Result<u16, StartError>)
        requires
            old(self).wf(),
            (match bind {
                BindOutcome::Bound(p) => p > 0 && (port != 0 ==> p == port),
                BindOutcome::BindFailed(_) => true,
            }),
        ensures
            final(self).wf(),
            (match tls {
                TlsSetup::Rejected(msg) => {
                    &&& r == Err::<u16, StartError>(StartError::TlsConfigError(msg))
                    &&& final(self).servers@ == old(self).servers@
                },
                TlsSetup::Accepted => (match bind {
                    BindOutcome::BindFailed(msg) => {
                        &&& r == Err::<u16, StartError>(StartError::BindError(msg))
                        &&& final(self).servers@ == old(self).servers@
                    },
                    BindOutcome::Bound(p) => {
                        if spec_has_id(old(self).servers@, id@) {
                            &&& r == Err::<u16, StartError>(StartError::DuplicateServerError)
                            &&& final(self).servers@ == old(self).servers@
                        } else {
                            &&& r == Ok::<u16, StartError>(p)
                            &&& spec_registered(
                                old(self).servers@,
                                final(self).servers@,
                                id@,
                                contract,
                                config,
                                true,
                                p,
                            )
                        }
                    },
                }),
            }),
    {
        let addr = SocketAddress { ip: [0, 0, 0, 0], port };
        match self.start_tls_mock_server_with_addr(id, contract, addr, tls, config, bind) {
            Ok(a) => Ok(a.port),
            Err(e) => Err(e),
        }
    }

    /// Shut a server down by its id: with the cancellation signal delivered,
    /// the entry leaves the map and `true` comes back once the task is
    /// joined. An unknown id, or a signal that could not be delivered, changes
    /// nothing and returns `false`.
    pub fn shutdown_mock_server_by_id(&mut self, id: &String, signal_ok: bool) -> (r: bool)
        requires
            old(self).wf(),
        ensures
            final(self).wf(),
            r == (spec_has_id(old(self).servers@, id@) && signal_ok),
            !r ==> final(self).servers@ == old(self).servers@,
            r ==> !spec_has_id(final(self).servers@, id@),
            r ==> exists|k: int| 0 <= k < old(self).servers@.len()
                && old(self).servers@[k].id@ == id@
                && final(self).servers@ == old(self).servers@.remove(k),
    {
        if !signal_ok {
            return false;
        }
        let ghost old_servers = self.servers@;
        let mut k: usize = 0;
        while k < self.servers.len()
            invariant
                k <= self.servers.len(),
                self.wf(),
                self.servers@ == old_servers,
                old_servers == old(self).servers@,
                signal_ok,
                forall|j: int| 0 <= j < k ==> self.servers@[j].id@ != id@,
            decreases self.servers.len() - k,
        {
            if self.servers[k].id == *id {
                self.servers.remove(k);
                proof {
                    Self::lemma_remove_keeps_wf(old_servers, k as int);
                    assert forall|i: int| 0 <= i < self.servers@.len()
                        implies self.servers@[i].id@ != id@ by {
                        if i < k {
                            assert(self.servers@[i] == old_servers[i]);
                        } else {
                            assert(self.servers@[i] == old_servers[i + 1]);
                            assert(spec_ids_unique(old_servers));
                        }
                    }
                    assert(spec_has_id(old_servers, id@)) by {
                        assert(old_servers[k as int].id@ == id@);
                    }
                    assert(self.servers@ == old_servers.remove(k as int));
                }
                return true;
            }
            k += 1;
        }
        false
    }

    /// Shut a server down by its resolved port: the first entry bound to the
    /// port is the target, and the rest behaves as `shutdown_mock_server_by_id`.
    pub fn shutdown_mock_server_by_port(&mut self, port: u16, signal_ok: bool) -> (r: bool)
        requires
            old(self).wf(),
        ensures
            final(self).wf(),
            r == (spec_has_port(old(self).servers@, port) && signal_ok),
            !r ==> final(self).servers@ == old(self).servers@,
            r ==> exists|k: int| spec_first_port(old(self).servers@, port, k)
                && final(self).servers@ == old(self).servers@.remove(k),
    {
        if !signal_ok {
            return false;
        }
        let ghost old_servers = self.servers@;
        match self.index_of_port(port) {
            None => false,
            Some(k) => {
                self.servers.remove(k);
                proof {
                    Self::lemma_remove_keeps_wf(old_servers, k as int);
                }
                true
            },
        }
    }

    /// Removing one entry keeps the registry well-formed.
    proof fn lemma_remove_keeps_wf(s: Seq<MockServer>, k: int)
        requires
            0 <= k < s.len(),
            spec_manager_wf(s),
        ensures
            spec_manager_wf(s.remove(k)),
    {
        let t = s.remove(k);
        assert forall|i: int| 0 <= i < t.len() implies (#[trigger] t[i]).wf()
            && t[i].status is Running && t[i].port is Some by {
            if i < k {
                assert(t[i] == s[i]);
            } else {
                assert(t[i] == s[i + 1]);
            }
        }
        assert forall|i: int, j: int| 0 <= i < j < t.len() implies t[i].id@ != t[j].id@
            && spec_str_lt(t[i].id@, t[j].id@) by {
            let i0 = if i < k {
                i
            } else {
                i + 1
            };
            let j0 = if j < k {
                j
            } else {
                j + 1
            };
            assert(t[i] == s[i0]);
            assert(t[j] == s[j0]);
            assert(s[i0].id@ != s[j0].id@);
            assert(spec_str_lt(s[i0].id@, s[j0].id@));
        }
    }

    /// Replacing one entry with a state of the same identity, still running
    /// on its port, keeps the registry well-formed.
    proof fn lemma_update_keeps_wf(s: Seq<MockServer>, k: int, v: MockServer)
        requires
            0 <= k < s.len(),
            spec_manager_wf(s),
            v.id@ == s[k].id@,
            v.wf(),
            v.status is Running,
            v.port is Some,
        ensures
            spec_manager_wf(s.update(k, v)),
    {
        let t = s.update(k, v);
        assert forall|i: int, j: int| 0 <= i < j < t.len() implies t[i].id@ != t[j].id@
            && spec_str_lt(t[i].id@, t[j].id@) by {
            assert(t[i].id@ == s[i].id@);
            assert(t[j].id@ == s[j].id@);
            assert(s[i].id@ != s[j].id@);
            assert(spec_str_lt(s[i].id@, s[j].id@));
        }
        assert forall|i: int| 0 <= i < t.len() implies (#[trigger] t[i]).wf()
            && t[i].status is Running && t[i].port is Some by {
            if i != k {
                assert(t[i] == s[i]);
            }
        }
    }

    /// A shared view of the server this id names, where one is registered.
    pub fn find_mock_server_by_id(&self, id: &String) -> (r: Option<&MockServer>)
        ensures
            (match r {
                Some(s) => exists|k: int| 0 <= k < self.servers@.len()
                    && self.servers@[k].id@ == id@ && *s == self.servers@[k],
                None => !spec_has_id(self.servers@, id@),
            }),
    {
        let mut k: usize = 0;
        while k < self.servers.len()
            invariant
                k <= self.servers.len(),
                forall|j: int| 0 <= j < k ==> self.servers@[j].id@ != id@,
            decreases self.servers.len() - k,
        {
            if self.servers[k].id == *id {
                return Some(&self.servers[k]);
            }
            k += 1;
        }
        None
    }

    /// A shared view of the first server resolved to this port.
    pub fn find_mock_server_by_port(&self, port: u16) -> (r: Option<&MockServer>)
        requires
            self.wf(),
        ensures
            (match r {
                Some(s) => exists|k: int| spec_first_port(self.servers@, port, k)
                    && *s == self.servers@[k],
                None => !spec_has_port(self.servers@, port),
            }),
    {
        match self.index_of_port(port) {
            Some(k) => Some(&self.servers[k]),
            None => None,
        }
    }

    /// Deliver one request to the first server resolved to this port: the
    /// server records the verdict under its own lock and the response comes
    /// back; `None`, with nothing changed, when no server owns the port. No
    /// other server's state is touched.
    pub fn handle_request_by_port(&mut self, port: u16, request: &HttpRequest) -> (r: Option<HttpResponse>)
        requires
            old(self).wf(),
        ensures
            final(self).wf(),
            (match r {
                None => !spec_has_port(old(self).servers@, port)
                    && final(self).servers@ == old(self).servers@,
                Some(resp) => exists|k: int| spec_first_port(old(self).servers@, port, k)
                    && final(self).servers@.len() == old(self).servers@.len()
                    && spec_handle_request(old(self).servers@[k], final(self).servers@[k], *request, resp)
                    && (forall|j: int| 0 <= j < old(self).servers@.len() && j != k
                        ==> final(self).servers@[j] == old(self).servers@[j]),
            }),
    {
        let ghost old_servers = self.servers@;
        match self.index_of_port(port) {
            None => None,
            Some(k) => {
                let mut server = self.servers.remove(k);
                let resp = server.handle_request(request);
                self.servers.insert(k, server);
                proof {
                    assert(self.servers@ =~= old_servers.update(k as int, server));
                    assert(spec_first_port(old_servers, port, k as int));
                    Self::lemma_update_keeps_wf(old_servers, k as int, server);
                }
                Some(resp)
            },
        }
    }

    /// Clear the log and counters of the first server resolved to this port,
    /// leaving it running; `false`, with nothing changed, when no server owns
    /// the port. No other server's state is touched.
    pub fn reset_mock_server_by_port(&mut self, port: u16) -> (r: bool)
        requires
            old(self).wf(),
        ensures
            final(self).wf(),
            r == spec_has_port(old(self).servers@, port),
            !r ==> final(self).servers@ == old(self).servers@,
            r ==> exists|k: int| spec_first_port(old(self).servers@, port, k)
                && final(self).servers@.len() == old(self).servers@.len()
                && final(self).servers@[k].id@ == old(self).servers@[k].id@
                && final(self).servers@[k].port == old(self).servers@[k].port
                && final(self).servers@[k].match_log@.len() == 0
                && final(self).servers@[k].metrics.requests == 0
                && final(self).servers@[k].metrics.requests_in_error == 0
                && (forall|j: int| 0 <= j < old(self).servers@.len() && j != k
                    ==> final(self).servers@[j] == old(self).servers@[j]),
    {
        let ghost old_servers = self.servers@;
        match self.index_of_port(port) {
            None => false,
            Some(k) => {
                let mut server = self.servers.remove(k);
                server.reset();
                self.servers.insert(k, server);
                proof {
                    assert(self.servers@ =~= old_servers.update(k as int, server));
                    assert(spec_first_port(old_servers, port, k as int));
                    Self::lemma_update_keeps_wf(old_servers, k as int, server);
                }
                true
            },
        }
    }

    /// An owned snapshot of every registered server, in ascending id order:
    /// one result per server, however the servers were started.
    pub fn map_mock_servers(&self) -> (r: Vec<ServerSummary>)
        requires
            self.wf(),
        ensures
            r@.len() == self.servers@.len(),
            forall|i: int| 0 <= i < self.servers@.len()
                ==> (#[trigger] r@[i]).id@ == self.servers@[i].id@
                    && Some(r@[i].port) == self.servers@[i].port
                    && r@[i].metrics == self.servers@[i].metrics,
            forall|i: int, j: int| 0 <= i < j < r@.len() ==> spec_str_lt(
                (#[trigger] r@[i]).id@,
                (#[trigger] r@[j]).id@,
            ),
    {
        let mut r: Vec<ServerSummary> = Vec::new();
        let mut i: usize = 0;
        while i < self.servers.len()
            invariant
                self.wf(),
                i <= self.servers.len(),
                r@.len() == i as int,
                forall|j: int| 0 <= j < i ==> (#[trigger] r@[j]).id@ == self.servers@[j].id@
                    && Some(r@[j].port) == self.servers@[j].port
                    && r@[j].metrics == self.servers@[j].metrics,
            decreases self.servers.len() - i,
        {
            let s = &self.servers[i];
            let port = match s.port {
                Some(p) => p,
                None => {
                    proof {
                        assert(false);
                    }
                    0
                },
            };
            r.push(ServerSummary { id: s.id.clone(), port, metrics: s.metrics });
            i += 1;
        }
        r
    }

    /// How many servers are registered.
    pub fn len(&self) -> (r: usize)
        ensures
            r == self.servers@.len(),
    {
        self.servers.len()
    }
}

} // verus!
