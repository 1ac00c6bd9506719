//! The server's public side: which listener serves which rule, how a
//! request on the shared HTTP and HTTPS ports finds its rule, and how a user
//! connection waits for the client's work connection. Listener tasks,
//! sockets and channels belong to the program that runs them; this module
//! keeps their handles (`H`, `W`) by name and by connection id.
use vstd::prelude::*;
use vstd::hash_map::HashMapWithView;

use crate::config::{ProxyRule, ProxyRuleModel};
use crate::proto::message::NewWorkConnRequest;
use crate::sniff::{client_hello_sni, extract_host_from_http, extract_sni_from_client_hello, http_host};
use crate::table::NameTable;
use crate::text::{append, owned, string_views};

verus! {

broadcast use vstd::std_specs::hash::group_hash_axioms;

/// Hands out connection ids: 1, 2, 3, ... (after the largest id, 0).
pub struct ConnIdCounter {
    next: u64,
}

impl ConnIdCounter {
    /// The id the next allocation gives.
    pub closed spec fn next_id(&self) -> u64 {
        self.next
    }

    /// A counter that starts at 1.
    pub fn new() -> (c: Self)
        ensures
            c.next_id() == 1,
    {
        ConnIdCounter { next: 1 }
    }

    /// The next id.
    pub fn allocate(&mut self) -> (id: u64)
        ensures
            id == old(self).next_id(),
            final(self).next_id() == if old(self).next_id() == u64::MAX {
                0
            } else {
                (old(self).next_id() + 1) as u64
            },
    {
        let id = self.next;
        self.next = if self.next == u64::MAX {
            0
        } else {
            self.next + 1
        };
        id
    }
}

/// Why a user connection got no work connection.
pub enum WorkConnFailure {
    /// The rule's client is not connected.
    ClientOffline,
    /// The waiting side was dropped.
    ChannelClosed,
    /// The client did not connect in time.
    TimedOut,
}

/// The message for a user connection that got no work connection.
pub open spec fn work_conn_failure_message(why: WorkConnFailure, client_id: Seq<char>) -> Seq<char> {
    match why {
        WorkConnFailure::ClientOffline => "客户端 "@ + client_id + " 不在线，无法建立工作连接"@,
        WorkConnFailure::ChannelClosed => "工作连接通道关闭"@,
        WorkConnFailure::TimedOut => "等待工作连接超时"@,
    }
}

/// The routes after every domain of `domains` is routed to a rule whose
/// plain value is `rule`: all other domains keep their routes.
pub open spec fn routes_after_register(
    before: Map<Seq<char>, ProxyRuleModel>,
    domains: Seq<Seq<char>>,
    rule: ProxyRuleModel,
) -> Map<Seq<char>, ProxyRuleModel> {
    Map::new(
        |k: Seq<char>| before.contains_key(k) || domains.contains(k),
        |k: Seq<char>|
            if domains.contains(k) {
                rule
            } else {
                before[k]
            },
    )
}

/// The routes after every domain of `domains` is dropped.
pub open spec fn routes_after_unregister(
    before: Map<Seq<char>, ProxyRuleModel>,
    domains: Seq<Seq<char>>,
) -> Map<Seq<char>, ProxyRuleModel> {
    before.restrict(before.dom().filter(|k: Seq<char>| !domains.contains(k)))
}

/// A registered domain routes to its rule: after a rule's domains are
/// registered, each of them leads to that rule.
pub proof fn lemma_registered_domain_routes(
    before: Map<Seq<char>, ProxyRuleModel>,
    domains: Seq<Seq<char>>,
    rule: ProxyRuleModel,
    d: Seq<char>,
)
    requires
        domains.contains(d),
    ensures
        routes_after_register(before, domains, rule).contains_key(d),
        routes_after_register(before, domains, rule)[d] == rule,
{
}

/// Unregistering a rule's domains undoes registering them, when none of
/// them was routed before.
pub proof fn lemma_unregister_undoes_register(
    before: Map<Seq<char>, ProxyRuleModel>,
    domains: Seq<Seq<char>>,
    rule: ProxyRuleModel,
)
    requires
        forall|d: Seq<char>| #[trigger] domains.contains(d) ==> !before.contains_key(d),
    ensures
        routes_after_unregister(routes_after_register(before, domains, rule), domains) == before,
{
    let after = routes_after_unregister(routes_after_register(before, domains, rule), domains);
    assert(after =~= before);
}

/// Listener handles by rule name, the shared HTTP and HTTPS listeners, the
/// domain routes, and the user connections that wait for a work
/// connection.
#[verifier::reject_recursive_types(W)]
pub struct ProxyListenerManager<H, W> {
    listeners: NameTable<H>,
    http_listener: Option<H>,
    https_listener: Option<H>,
    domain_routes: NameTable<ProxyRule>,
    pending: HashMapWithView<u64, W>,
    conn_ids: ConnIdCounter,
}

impl<H, W> ProxyListenerManager<H, W> {
    /// The listener handle per rule name (TCP and UDP rules).
    pub closed spec fn listeners(&self) -> Map<Seq<char>, H> {
        self.listeners@
    }

    /// The rule (as plain values) per routed domain.
    pub closed spec fn routes(&self) -> Map<Seq<char>, ProxyRuleModel> {
        self.domain_routes@.map_values(|r: ProxyRule| r.model())
    }

    /// The waiting side per pending connection id.
    pub closed spec fn pending(&self) -> Map<u64, W> {
        self.pending@
    }

    /// The id the next user connection gets.
    pub closed spec fn next_conn_id(&self) -> u64 {
        self.conn_ids.next_id()
    }

    /// The handle of the shared HTTP listener, if it runs.
    pub closed spec fn http_handle(&self) -> Option<H> {
        self.http_listener
    }

    /// The handle of the shared HTTPS listener, if it runs.
    pub closed spec fn https_handle(&self) -> Option<H> {
        self.https_listener
    }

    /// Whether the shared HTTP listener runs.
    pub closed spec fn has_http_listener(&self) -> bool {
        self.http_listener is Some
    }

    /// Whether the shared HTTPS listener runs.
    pub closed spec fn has_https_listener(&self) -> bool {
        self.https_listener is Some
    }

    /// The tables are well formed.
    pub closed spec fn wf(&self) -> bool {
        self.listeners.wf() && self.domain_routes.wf()
    }

    /// Nothing listens, nothing is routed or pending; the first connection
    /// id is 1.
    pub fn new() -> (m: Self)
        ensures
            m.wf(),
            m.listeners() == Map::<Seq<char>, H>::empty(),
            m.routes() == Map::<Seq<char>, ProxyRuleModel>::empty(),
            m.pending() == Map::<u64, W>::empty(),
            m.next_conn_id() == 1,
            !m.has_http_listener(),
            !m.has_https_listener(),
    {
        let m = ProxyListenerManager {
            listeners: NameTable::new(),
            http_listener: None,
            https_listener: None,
            domain_routes: NameTable::new(),
            pending: HashMapWithView::new(),
            conn_ids: ConnIdCounter::new(),
        };
        assert(m.routes() =~= Map::<Seq<char>, ProxyRuleModel>::empty());
        m
    }

    /// Records the listener of a TCP or UDP rule; gives back the handle it
    /// replaces.
    pub fn add_listener(&mut self, name: &str, handle: H) -> (replaced: Option<H>)
        requires
            old(self).wf(),
        ensures
            final(self).wf(),
            final(self).listeners() == old(self).listeners().insert(name@, handle),
            old(self).listeners().contains_key(name@) ==> replaced == Some(
                old(self).listeners()[name@],
            ),
            !old(self).listeners().contains_key(name@) ==> replaced is None,
            final(self).routes() == old(self).routes(),
            final(self).pending() == old(self).pending(),
    {
        self.listeners.set(name, handle)
    }

    /// Records the shared HTTP listener; gives back the one it replaces.
    pub fn set_http_listener(&mut self, handle: H) -> (replaced: Option<H>)
        ensures
            final(self).has_http_listener(),
            replaced is Some == old(self).has_http_listener(),
            final(self).listeners() == old(self).listeners(),
            final(self).routes() == old(self).routes(),
            final(self).wf() == old(self).wf(),
    {
        let mut slot = Some(handle);
        std::mem::swap(&mut slot, &mut self.http_listener);
        slot
    }

    /// Records the shared HTTPS listener; gives back the one it replaces.
    pub fn set_https_listener(&mut self, handle: H) -> (replaced: Option<H>)
        ensures
            final(self).has_https_listener(),
            replaced is Some == old(self).has_https_listener(),
            final(self).listeners() == old(self).listeners(),
            final(self).routes() == old(self).routes(),
            final(self).wf() == old(self).wf(),
    {
        let mut slot = Some(handle);
        std::mem::swap(&mut slot, &mut self.https_listener);
        slot
    }

    /// Forgets the listener of a rule; gives back its handle, to be stopped.
    pub fn stop_listener(&mut self, name: &str) -> (removed: Option<H>)
        requires
            old(self).wf(),
        ensures
            final(self).wf(),
            final(self).listeners() == old(self).listeners().remove(name@),
            old(self).listeners().contains_key(name@) ==> removed == Some(
                old(self).listeners()[name@],
            ),
            !old(self).listeners().contains_key(name@) ==> removed is None,
            final(self).routes() == old(self).routes(),
    {
        self.listeners.remove(name)
    }

    /// Forgets every listener, shared ones included; gives back their
    /// handles, to be stopped.
    pub fn stop_all(&mut self) -> (handles: Vec<H>)
        requires
            old(self).wf(),
        ensures
            final(self).wf(),
            final(self).listeners() == Map::<Seq<char>, H>::empty(),
            !final(self).has_http_listener(),
            !final(self).has_https_listener(),
            handles@.len() == old(self).listeners().dom().len() + (if old(
                self,
            ).has_http_listener() {
                1int
            } else {
                0
            }) + (if old(self).has_https_listener() {
                1int
            } else {
                0
            }),
            final(self).routes() == old(self).routes(),
            forall|name: Seq<char>| #[trigger] old(self).listeners().contains_key(name)
                ==> handles@.contains(old(self).listeners()[name]),
            old(self).http_handle() is Some ==> handles@.contains(old(self).http_handle().unwrap()),
            old(self).https_handle() is Some ==> handles@.contains(old(self).https_handle().unwrap()),
    {
        proof {
            self.listeners.lemma_names();
        }
        let all = self.listeners.take_all();
        let mut handles: Vec<H> = Vec::new();
        let mut all = all;
        let ghost orig = all@;
        let ghost n = all@.len();
        assert(n == old(self).listeners().dom().len()) by {
            assert(all@.map_values(|e: (String, H)| e.0@).len() == all@.len());
        }
        while all.len() > 0
            invariant
                handles@.len() + all@.len() == n,
                n == orig.len(),
                all@ == orig.subrange(0, all@.len() as int),
                forall|j: int| all@.len() <= j < n ==> handles@.contains(#[trigger] orig[j].1),
            decreases all@.len(),
        {
            let ghost before = handles@;
            let popped = all.pop();
            let (_, h) = popped.unwrap();
            handles.push(h);
            proof {
                assert forall|j: int| all@.len() <= j < n implies handles@.contains(#[trigger] orig[j].1) by {
                    if j == all@.len() {
                        assert(handles@[handles@.len() - 1] == orig[j].1);
                    } else {
                        let i = choose|i: int| 0 <= i < before.len() && before[i] == orig[j].1;
                        assert(handles@[i] == orig[j].1);
                    }
                }
            }
        }
        proof {
            assert forall|name: Seq<char>| #[trigger] old(self).listeners().contains_key(name)
                implies handles@.contains(old(self).listeners()[name]) by {
                assert(old(self).listeners.names().to_set().contains(name));
                let i = choose|i: int| 0 <= i < old(self).listeners.names().len()
                    && old(self).listeners.names()[i] == name;
                assert(orig.map_values(|e: (String, H)| e.0@)[i] == name);
                assert(orig[i].0@ == name);
                assert(orig[i].1 == old(self).listeners()[name]);
                assert(handles@.contains(orig[i].1));
            }
        }
        let ghost listed = handles@;
        let mut slot: Option<H> = None;
        std::mem::swap(&mut slot, &mut self.http_listener);
        if let Some(h) = slot {
            handles.push(h);
            proof {
                assert(handles@[handles@.len() - 1] == h);
                assert(handles@.contains(h));
            }
        }
        assert(old(self).http_handle() is Some ==> handles@.contains(old(self).http_handle().unwrap()));
        let ghost with_http = handles@;
        let mut slot: Option<H> = None;
        std::mem::swap(&mut slot, &mut self.https_listener);
        if let Some(h) = slot {
            handles.push(h);
            proof {
                assert(handles@[handles@.len() - 1] == h);
            }
        }
        proof {
            assert forall|x: H| listed.contains(x) implies handles@.contains(x) by {
                let i = choose|i: int| 0 <= i < listed.len() && listed[i] == x;
                assert(handles@[i] == x);
            }
            assert forall|x: H| with_http.contains(x) implies handles@.contains(x) by {
                let i = choose|i: int| 0 <= i < with_http.len() && with_http[i] == x;
                assert(handles@[i] == x);
            }
        }
        handles
    }

    /// Routes each domain of a rule to that rule.
    pub fn register_domain_route(&mut self, rule: &ProxyRule)
        requires
            old(self).wf(),
        ensures
            final(self).wf(),
            final(self).routes() == routes_after_register(
                old(self).routes(),
                string_views(rule.custom_domains@),
                rule.model(),
            ),
            final(self).listeners() == old(self).listeners(),
            final(self).pending() == old(self).pending(),
    {
        let ghost ds = string_views(rule.custom_domains@);
        let mut i: usize = 0;
        while i < rule.custom_domains.len()
            invariant
                self.wf(),
                i <= rule.custom_domains@.len(),
                ds == string_views(rule.custom_domains@),
                self.routes() == routes_after_register(
                    old(self).routes(),
                    ds.subrange(0, i as int),
                    rule.model(),
                ),
                self.listeners() == old(self).listeners(),
                self.pending() == old(self).pending(),
            decreases rule.custom_domains@.len() - i,
        {
            let ghost before = self.routes();
            let _ = self.domain_routes.set(rule.custom_domains[i].as_str(), rule.duplicate());
            proof {
                let prefix = ds.subrange(0, i as int);
                let next = ds.subrange(0, i + 1);
                assert(next =~= prefix.push(ds[i as int]));
                assert forall|k: Seq<char>| #[trigger] next.contains(k) <==> prefix.contains(k) || k == ds[i as int] by {
                    if next.contains(k) {
                        let j = choose|j: int| 0 <= j < next.len() && next[j] == k;
                        if j < i {
                            assert(prefix[j] == k);
                        }
                    }
                    if prefix.contains(k) {
                        let j = choose|j: int| 0 <= j < prefix.len() && prefix[j] == k;
                        assert(next[j] == k);
                    }
                    if k == ds[i as int] {
                        assert(next[i as int] == k);
                    }
                }
                assert(self.routes() =~= before.insert(ds[i as int], rule.model()));
                assert(self.routes() =~= routes_after_register(old(self).routes(), next, rule.model()));
            }
            i = i + 1;
        }
        assert(ds.subrange(0, i as int) =~= ds);
    }

    /// Drops the route of each domain of a rule.
    pub fn unregister_domain_route(&mut self, rule: &ProxyRule)
        requires
            old(self).wf(),
        ensures
            final(self).wf(),
            final(self).routes() == routes_after_unregister(
                old(self).routes(),
                string_views(rule.custom_domains@),
            ),
            final(self).listeners() == old(self).listeners(),
            final(self).pending() == old(self).pending(),
    {
        let ghost ds = string_views(rule.custom_domains@);
        let mut i: usize = 0;
        assert(old(self).routes() =~= routes_after_unregister(old(self).routes(), ds.subrange(0, 0)));
        while i < rule.custom_domains.len()
            invariant
                self.wf(),
                i <= rule.custom_domains@.len(),
                ds == string_views(rule.custom_domains@),
                self.routes() == routes_after_unregister(old(self).routes(), ds.subrange(0, i as int)),
                self.listeners() == old(self).listeners(),
                self.pending() == old(self).pending(),
            decreases rule.custom_domains@.len() - i,
        {
            let ghost before = self.routes();
            let _ = self.domain_routes.remove(rule.custom_domains[i].as_str());
            proof {
                assert(self.routes() =~= before.remove(ds[i as int]));
                let prefix = ds.subrange(0, i as int);
                let next = ds.subrange(0, i + 1);
                assert forall|k: Seq<char>| #[trigger] next.contains(k) <==> prefix.contains(k) || k == ds[i as int] by {
                    if next.contains(k) {
                        let j = choose|j: int| 0 <= j < next.len() && next[j] == k;
                        if j < i {
                            assert(prefix[j] == k);
                        }
                    }
                    if prefix.contains(k) {
                        let j = choose|j: int| 0 <= j < prefix.len() && prefix[j] == k;
                        assert(next[j] == k);
                    }
                    if k == ds[i as int] {
                        assert(next[i as int] == k);
                    }
                }
                assert(self.routes() =~= routes_after_unregister(old(self).routes(), next));
            }
            i = i + 1;
        }
        assert(ds.subrange(0, i as int) =~= ds);
    }

    /// The rule routed for a host name.
    pub fn route_for(&self, host: &str) -> (r: Option<ProxyRule>)
        requires
            self.wf(),
        ensures
            match r {
                Some(rule) => self.routes().contains_key(host@) && rule.model() == self.routes()[host@],
                None => !self.routes().contains_key(host@),
            },
    {
        match self.domain_routes.get(host) {
            Some(rule) => Some(rule.duplicate()),
            None => None,
        }
    }

    /// The rule for a plain HTTP request, from the `Host` header in its
    /// first bytes; else why there is none.
    pub fn route_http(&self, peek: &[u8]) -> (r: Result<ProxyRule, String>)
        requires
            self.wf(),
        ensures
            match http_host(peek@) {
                None => (r matches Err(m) && m@ == "无法解析 HTTP Host 头"@),
                Some(host) => if self.routes().contains_key(host) {
                    (r matches Ok(rule) && rule.model() == self.routes()[host])
                } else {
                    (r matches Err(m) && m@ == "未找到域名 "@ + host + " 的代理规则"@)
                },
            },
    {
        let host = match extract_host_from_http(peek) {
            Some(h) => h,
            None => {
                return Err(owned("无法解析 HTTP Host 头"));
            },
        };
        match self.route_for(host.as_str()) {
            Some(rule) => Ok(rule),
            None => {
                let mut m = owned("未找到域名 ");
                append(&mut m, host.as_str());
                append(&mut m, " 的代理规则");
                Err(m)
            },
        }
    }

    /// The rule for a TLS connection, from the server name in its
    /// ClientHello; nothing when there is none or it is not routed.
    pub fn route_https(&self, peek: &[u8]) -> (r: Option<ProxyRule>)
        requires
            self.wf(),
        ensures
            match client_hello_sni(peek@) {
                Some(name) => if self.routes().contains_key(name) {
                    (r matches Some(rule) && rule.model() == self.routes()[name])
                } else {
                    r is None
                },
                None => r is None,
            },
    {
        match extract_sni_from_client_hello(peek) {
            Some(name) => self.route_for(name.as_str()),
            None => None,
        }
    }

    /// A user connection of rule `proxy_name` arrived: it gets the next
    /// connection id and waits (through `waiter`) for its work connection;
    /// gives the request to send to the rule's client.
    pub fn open_user_conn(&mut self, proxy_name: &str, waiter: W) -> (req: NewWorkConnRequest)
        requires
            old(self).wf(),
        ensures
            final(self).wf(),
            req.proxy_name@ == proxy_name@,
            req.conn_id == old(self).next_conn_id(),
            final(self).pending() == old(self).pending().insert(req.conn_id, waiter),
            final(self).next_conn_id() == if old(self).next_conn_id() == u64::MAX {
                0
            } else {
                (old(self).next_conn_id() + 1) as u64
            },
            final(self).listeners() == old(self).listeners(),
            final(self).routes() == old(self).routes(),
    {
        let conn_id = self.conn_ids.allocate();
        self.pending.insert(conn_id, waiter);
        NewWorkConnRequest { proxy_name: owned(proxy_name), conn_id }
    }

    /// The next connection id, for a user (a UDP peer) that does not wait
    /// through this table.
    pub fn allocate_conn_id(&mut self) -> (id: u64)
        requires
            old(self).wf(),
        ensures
            final(self).wf(),
            id == old(self).next_conn_id(),
            final(self).next_conn_id() == if old(self).next_conn_id() == u64::MAX {
                0
            } else {
                (old(self).next_conn_id() + 1) as u64
            },
            final(self).pending() == old(self).pending(),
            final(self).listeners() == old(self).listeners(),
            final(self).routes() == old(self).routes(),
    {
        self.conn_ids.allocate()
    }

    /// Waits (through `waiter`) for the work connection of `conn_id`.
    pub fn add_pending(&mut self, conn_id: u64, waiter: W)
        requires
            old(self).wf(),
        ensures
            final(self).wf(),
            final(self).pending() == old(self).pending().insert(conn_id, waiter),
            final(self).next_conn_id() == old(self).next_conn_id(),
            final(self).listeners() == old(self).listeners(),
            final(self).routes() == old(self).routes(),
    {
        self.pending.insert(conn_id, waiter);
    }

    /// A work connection for `conn_id` arrived: gives the waiting side, if
    /// any, which stops waiting.
    pub fn register_work_conn(&mut self, conn_id: u64) -> (waiter: Option<W>)
        requires
            old(self).wf(),
        ensures
            final(self).wf(),
            final(self).pending() == old(self).pending().remove(conn_id),
            old(self).pending().contains_key(conn_id) ==> waiter == Some(
                old(self).pending()[conn_id],
            ),
            !old(self).pending().contains_key(conn_id) ==> waiter is None,
            final(self).next_conn_id() == old(self).next_conn_id(),
            final(self).listeners() == old(self).listeners(),
            final(self).routes() == old(self).routes(),
    {
        self.pending.remove(&conn_id)
    }

    /// The user connection `conn_id` of a rule of `client_id` got no work
    /// connection: it stops waiting; gives the message to report.
    pub fn work_conn_failed(&mut self, conn_id: u64, client_id: &str, why: WorkConnFailure) -> (m:
        String)
        requires
            old(self).wf(),
        ensures
            final(self).wf(),
            final(self).pending() == old(self).pending().remove(conn_id),
            m@ == work_conn_failure_message(why, client_id@),
            final(self).next_conn_id() == old(self).next_conn_id(),
            final(self).listeners() == old(self).listeners(),
            final(self).routes() == old(self).routes(),
    {
        let _ = self.pending.remove(&conn_id);
        match why {
            WorkConnFailure::ClientOffline => {
                let mut m = owned("客户端 ");
                append(&mut m, client_id);
                append(&mut m, " 不在线，无法建立工作连接");
                m
            },
            WorkConnFailure::ChannelClosed => owned("工作连接通道关闭"),
            WorkConnFailure::TimedOut => owned("等待工作连接超时"),
        }
    }
}

/// Where a UDP packet from a peer goes.
pub enum UdpPacketRoute {
    /// The peer's session has a work connection: send through it.
    Forward(u64),
    /// The peer's session still waits for its work connection: the packet
    /// is dropped.
    Drop,
    /// The peer has no session: open one.
    NewSession,
}

/// The UDP sessions of one rule: the connection id per peer address, and
/// the sending side per connection id once its work connection is up.
#[verifier::reject_recursive_types(S)]
pub struct UdpSessions<S> {
    peers: NameTable<u64>,
    senders: HashMapWithView<u64, S>,
}

impl<S> UdpSessions<S> {
    /// The connection id per peer address.
    pub closed spec fn peers(&self) -> Map<Seq<char>, u64> {
        self.peers@
    }

    /// The sending side per connection id.
    pub closed spec fn senders(&self) -> Map<u64, S> {
        self.senders@
    }

    /// The table is well formed.
    pub closed spec fn wf(&self) -> bool {
        self.peers.wf()
    }

    /// No session.
    pub fn new() -> (s: Self)
        ensures
            s.wf(),
            s.peers() == Map::<Seq<char>, u64>::empty(),
            s.senders() == Map::<u64, S>::empty(),
    {
        UdpSessions { peers: NameTable::new(), senders: HashMapWithView::new() }
    }

    /// Where a packet from `peer` goes.
    pub fn route(&self, peer: &str) -> (r: UdpPacketRoute)
        requires
            self.wf(),
        ensures
            !self.peers().contains_key(peer@) ==> r is NewSession,
            self.peers().contains_key(peer@) && self.senders().contains_key(self.peers()[peer@])
                ==> r == UdpPacketRoute::Forward(self.peers()[peer@]),
            self.peers().contains_key(peer@) && !self.senders().contains_key(self.peers()[peer@])
                ==> r is Drop,
    {
        match self.peers.get(peer) {
            Some(id) => {
                if self.senders.contains_key(id) {
                    UdpPacketRoute::Forward(*id)
                } else {
                    UdpPacketRoute::Drop
                }
            },
            None => UdpPacketRoute::NewSession,
        }
    }

    /// The sending side of a session.
    pub fn sender(&self, conn_id: u64) -> (r: Option<&S>)
        ensures
            match r {
                Some(s) => self.senders().contains_key(conn_id) && self.senders()[conn_id] == *s,
                None => !self.senders().contains_key(conn_id),
            },
    {
        self.senders.get(&conn_id)
    }

    /// A session for `peer` opens under `conn_id`.
    pub fn start(&mut self, peer: &str, conn_id: u64)
        requires
            old(self).wf(),
        ensures
            final(self).wf(),
            final(self).peers() == old(self).peers().insert(peer@, conn_id),
            final(self).senders() == old(self).senders(),
    {
        let _ = self.peers.set(peer, conn_id);
    }

    /// The work connection of `conn_id` is up: packets go through `sender`.
    pub fn attach(&mut self, conn_id: u64, sender: S)
        requires
            old(self).wf(),
        ensures
            final(self).wf(),
            final(self).peers() == old(self).peers(),
            final(self).senders() == old(self).senders().insert(conn_id, sender),
    {
        self.senders.insert(conn_id, sender);
    }

    /// The client was (`sent`) or could not be told of the new session
    /// `conn_id` of `peer`; when it could not, the session ends. Whether to
    /// wait for its work connection.
    pub fn notice_outcome(&mut self, peer: &str, conn_id: u64, sent: bool) -> (wait: bool)
        requires
            old(self).wf(),
        ensures
            final(self).wf(),
            wait == sent,
            sent ==> final(self).peers() == old(self).peers() && final(self).senders() == old(self).senders(),
            !sent ==> final(self).peers() == old(self).peers().remove(peer@) && final(self).senders()
                == old(self).senders().remove(conn_id),
    {
        if !sent {
            self.end(peer, conn_id);
        }
        sent
    }

    /// The session of `peer` under `conn_id` ends (it failed, expired or
    /// closed).
    pub fn end(&mut self, peer: &str, conn_id: u64)
        requires
            old(self).wf(),
        ensures
            final(self).wf(),
            final(self).peers() == old(self).peers().remove(peer@),
            final(self).senders() == old(self).senders().remove(conn_id),
    {
        let _ = self.peers.remove(peer);
        let _ = self.senders.remove(&conn_id);
    }
}

} // verus!
