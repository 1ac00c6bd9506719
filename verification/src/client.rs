//! The client's side: its authentication, how its control loop reacts to
//! what the server sends, and the proxy rules it was assigned. The program
//! that owns the sockets runs the loop and the work connections.
use vstd::prelude::*;

use crate::config::ClientConfig;
use crate::proto::message::AuthRequest;
use crate::proto::message::{AuthResponse, ControlMessage, Message, NewWorkConnResponse, ServerAssignProxyRequest};
use crate::table::NameTable;
use crate::text::{append, decimal, owned, push_decimal, str_eq, string_push};

verus! {

/// The authentication request of a client running version `version`.
pub fn auth_request(config: &ClientConfig, version: &str) -> (r: AuthRequest)
    ensures
        r.client_id@ == config.client.id@,
        r.token@ == config.client.token@,
        r.version@ == version@,
{
    AuthRequest {
        client_id: config.client.id.clone(),
        token: config.client.token.clone(),
        version: owned(version),
    }
}

/// The certificate verifier that accepts any server certificate: the trust
/// a client uses when no CA certificate is configured (the server then
/// presents a self-signed one).
pub struct NoVerifier;

/// How a client checks the server's certificate.
pub enum ServerTrust {
    /// Accept any certificate.
    AnyCertificate(NoVerifier),
    /// Check against the CA certificates in this PEM file.
    CaFile(String),
}

/// No configured CA certificate means any certificate is accepted;
/// otherwise the configured file holds the CA certificates.
pub fn server_trust(ca_cert: &str) -> (t: ServerTrust)
    ensures
        ca_cert@.len() == 0 ==> t is AnyCertificate,
        ca_cert@.len() > 0 ==> (t matches ServerTrust::CaFile(p) && p@ == ca_cert@),
{
    if ca_cert.unicode_len() == 0 {
        ServerTrust::AnyCertificate(NoVerifier)
    } else {
        ServerTrust::CaFile(owned(ca_cert))
    }
}

/// What came back while the client waited for the answer to its
/// authentication request.
pub enum AuthWait {
    /// A message arrived.
    Received(Message),
    /// A frame could not be decoded; the decoder's message.
    DecodeError(String),
    /// The server closed the connection.
    Closed,
    /// No answer came in time.
    TimedOut,
}

/// The authentication answer in what came back, or why there is none.
pub fn auth_reply(w: AuthWait) -> (r: Result<AuthResponse, String>)
    ensures
        match w {
            AuthWait::Received(Message::Control(ControlMessage::AuthResp(resp))) => r == Ok::<
                AuthResponse,
                String,
            >(resp),
            AuthWait::Received(_) => (r matches Err(m) && m@ == "期望认证响应，收到其他消息"@),
            AuthWait::DecodeError(e) => (r matches Err(m) && m@ == "认证响应解析错误: "@ + e@),
            AuthWait::Closed => (r matches Err(m) && m@ == "服务端在认证前关闭连接"@),
            AuthWait::TimedOut => (r matches Err(m) && m@ == "认证超时"@),
        },
{
    match w {
        AuthWait::Received(Message::Control(ControlMessage::AuthResp(resp))) => Ok(resp),
        AuthWait::Received(_) => Err(owned("期望认证响应，收到其他消息")),
        AuthWait::DecodeError(e) => {
            let mut m = owned("认证响应解析错误: ");
            append(&mut m, e.as_str());
            Err(m)
        },
        AuthWait::Closed => Err(owned("服务端在认证前关闭连接")),
        AuthWait::TimedOut => Err(owned("认证超时")),
    }
}

/// Accepts a successful authentication answer; a refusal becomes an error
/// that carries the server's message.
pub fn check_auth(resp: AuthResponse) -> (r: Result<AuthResponse, String>)
    ensures
        resp.success ==> r == Ok::<AuthResponse, String>(resp),
        !resp.success ==> (r matches Err(m) && m@ == "认证失败: "@ + resp.message@),
{
    if !resp.success {
        let mut m = owned("认证失败: ");
        append(&mut m, resp.message.as_str());
        return Err(m);
    }
    Ok(resp)
}

/// What happens on the client's control connection.
pub enum ClientEvent {
    /// A message arrived from the server.
    Received(Message),
    /// A frame from the server could not be decoded.
    ReadError,
    /// The server closed the connection.
    Closed,
    /// The heartbeat timer fired.
    PingTick,
    /// A message is waiting to go to the server.
    Outbound(Message),
    /// Nothing more will wait to go to the server.
    OutboundClosed,
    /// Writing to the server failed.
    SendFailed,
}

/// What the client does next.
pub enum ClientAction {
    /// Keep going.
    Continue,
    /// Take on the assigned proxy rule.
    StartProxy(ServerAssignProxyRequest),
    /// Drop the named proxy rule.
    StopProxy(String),
    /// Open a work connection for a user connection of a proxy rule.
    OpenWorkConn { proxy_name: String, conn_id: u64 },
    /// Send a heartbeat.
    SendPing,
    /// Send this message to the server.
    Send(Message),
    /// Close the connection (and stop every proxy rule).
    Disconnect,
}

/// One step of the client's control loop: assignments start proxy rules,
/// closings stop them, work connection requests open work connections,
/// the timer sends heartbeats, other messages are ignored, and any failure
/// or close ends the loop.
pub fn client_step(event: ClientEvent) -> (a: ClientAction)
    ensures
        match event {
            ClientEvent::Received(Message::Control(ControlMessage::ServerAssignProxy(req))) => a
                == ClientAction::StartProxy(req),
            ClientEvent::Received(Message::Control(ControlMessage::ServerCloseProxy(req))) => (a matches ClientAction::StopProxy(n) && n@ == req.name@),
            ClientEvent::Received(Message::Control(ControlMessage::NewWorkConn(req))) => (a matches ClientAction::OpenWorkConn { proxy_name, conn_id } && proxy_name@
                == req.proxy_name@ && conn_id == req.conn_id),
            ClientEvent::Received(_) => a is Continue,
            ClientEvent::PingTick => a is SendPing,
            ClientEvent::Outbound(m) => a == ClientAction::Send(m),
            _ => a is Disconnect,
        },
{
    match event {
        ClientEvent::Received(Message::Control(ctrl)) => match ctrl {
            ControlMessage::ServerAssignProxy(req) => ClientAction::StartProxy(req),
            ControlMessage::ServerCloseProxy(req) => ClientAction::StopProxy(req.name),
            ControlMessage::NewWorkConn(req) => ClientAction::OpenWorkConn {
                proxy_name: req.proxy_name,
                conn_id: req.conn_id,
            },
            _ => ClientAction::Continue,
        },
        ClientEvent::Received(Message::Data(_)) => ClientAction::Continue,
        ClientEvent::ReadError => ClientAction::Disconnect,
        ClientEvent::Closed => ClientAction::Disconnect,
        ClientEvent::PingTick => ClientAction::SendPing,
        ClientEvent::Outbound(m) => ClientAction::Send(m),
        ClientEvent::OutboundClosed => ClientAction::Disconnect,
        ClientEvent::SendFailed => ClientAction::Disconnect,
    }
}

/// The name the server's certificate is checked against: the configured
/// name, or the server address when none is configured.
pub fn server_name_for<'a>(server_name: &'a str, server_addr: &'a str) -> (r: &'a str)
    ensures
        server_name@.len() == 0 ==> r@ == server_addr@,
        server_name@.len() > 0 ==> r@ == server_name@,
{
    if server_name.unicode_len() == 0 {
        server_addr
    } else {
        server_name
    }
}

/// `host:port`.
pub open spec fn host_port(host: Seq<char>, port: u16) -> Seq<char> {
    host + seq![':'] + decimal(port as nat)
}

/// The address `host:port` as text.
pub fn format_host_port(host: &str, port: u16) -> (s: String)
    ensures
        s@ == host_port(host@, port),
{
    let mut s = owned(host);
    string_push(&mut s, ':');
    push_decimal(&mut s, port as u64);
    s
}

/// The first message on a new work connection: it announces which user
/// connection of which proxy rule it serves.
pub fn work_conn_response(proxy_name: &str, conn_id: u64) -> (r: NewWorkConnResponse)
    ensures
        r.proxy_name@ == proxy_name@,
        r.conn_id == conn_id,
        r.success,
{
    NewWorkConnResponse { proxy_name: owned(proxy_name), conn_id, success: true }
}

/// How a work connection reaches the local service.
pub enum LocalTransport {
    Udp,
    Tcp,
}

/// UDP rules reach the local service over UDP, all others over TCP.
pub fn local_transport(proxy_type: &str) -> (t: LocalTransport)
    ensures
        proxy_type@ == "udp"@ ==> t is Udp,
        proxy_type@ != "udp"@ ==> t is Tcp,
{
    if str_eq(proxy_type, "udp") {
        LocalTransport::Udp
    } else {
        LocalTransport::Tcp
    }
}

/// The PROXY protocol version to write before the user's data, if any: a
/// missing or empty setting writes none.
pub fn proxy_protocol_to_inject(setting: &Option<String>) -> (r: Option<&str>)
    ensures
        match setting {
            Some(v) => if v@.len() > 0 {
                (r matches Some(s) && s@ == v@)
            } else {
                r is None
            },
            None => r is None,
        },
{
    match setting {
        Some(v) => {
            if v.as_str().unicode_len() > 0 {
                Some(v.as_str())
            } else {
                None
            }
        },
        None => None,
    }
}

/// Where a proxy rule of the client leads.
pub struct WorkerRoute {
    /// `local_ip:local_port`.
    pub local_addr: String,
    pub proxy_type: String,
    /// PROXY protocol setting: empty, `v1` or `v2`.
    pub proxy_protocol: String,
}

/// A route as plain values.
pub open spec fn route_view(r: WorkerRoute) -> (Seq<char>, Seq<char>, Seq<char>) {
    (r.local_addr@, r.proxy_type@, r.proxy_protocol@)
}

/// The proxy rules the server assigned to this client, by name.
pub struct ProxyWorkerManager {
    routes: NameTable<WorkerRoute>,
}

impl Default for ProxyWorkerManager {
    /// No rule is assigned.
    fn default() -> (m: Self)
        ensures
            m.wf(),
            m@ == Map::<Seq<char>, WorkerRoute>::empty(),
    {
        ProxyWorkerManager::new()
    }
}

impl ProxyWorkerManager {
    /// The route per rule name.
    pub closed spec fn view(&self) -> Map<Seq<char>, WorkerRoute> {
        self.routes@
    }

    /// The table is well formed.
    pub closed spec fn wf(&self) -> bool {
        self.routes.wf()
    }

    /// No rule is assigned.
    pub fn new() -> (m: Self)
        ensures
            m.wf(),
            m@ == Map::<Seq<char>, WorkerRoute>::empty(),
    {
        ProxyWorkerManager { routes: NameTable::new() }
    }

    /// Takes on an assigned rule (replacing one of the same name): its local
    /// address is `local_ip:local_port`.
    pub fn start_proxy(&mut self, req: ServerAssignProxyRequest, _config: &ClientConfig) -> (r:
        Result<(), String>)
        requires
            old(self).wf(),
        ensures
            r is Ok,
            final(self).wf(),
            final(self)@.dom() == old(self)@.dom().insert(req.name@),
            forall|k: Seq<char>| #[trigger] final(self)@.contains_key(k) && k != req.name@ ==> final(self)@[k] == old(self)@[k],
            route_view(final(self)@[req.name@]) == (host_port(req.local_ip@, req.local_port), req.proxy_type@, req.proxy_protocol@),
    {
        let local_addr = format_host_port(req.local_ip.as_str(), req.local_port);
        let route = WorkerRoute {
            local_addr,
            proxy_type: req.proxy_type,
            proxy_protocol: req.proxy_protocol,
        };
        let _ = self.routes.set(req.name.as_str(), route);
        assert(self@.dom() =~= old(self)@.dom().insert(req.name@));
        Ok(())
    }

    /// Drops the named rule.
    pub fn stop_proxy(&mut self, name: &str)
        requires
            old(self).wf(),
        ensures
            final(self).wf(),
            final(self)@ == old(self)@.remove(name@),
    {
        let _ = self.routes.remove(name);
    }

    /// Drops every rule.
    pub fn stop_all(&mut self)
        requires
            old(self).wf(),
        ensures
            final(self).wf(),
            final(self)@ == Map::<Seq<char>, WorkerRoute>::empty(),
    {
        let _ = self.routes.take_all();
    }

    /// The local address of the named rule.
    pub fn get_local_addr(&self, name: &str) -> (r: Option<String>)
        requires
            self.wf(),
        ensures
            match r {
                Some(a) => self@.contains_key(name@) && a@ == self@[name@].local_addr@,
                None => !self@.contains_key(name@),
            },
    {
        match self.routes.get(name) {
            Some(route) => Some(route.local_addr.clone()),
            None => None,
        }
    }

    /// The proxy type of the named rule.
    pub fn get_proxy_type(&self, name: &str) -> (r: Option<String>)
        requires
            self.wf(),
        ensures
            match r {
                Some(t) => self@.contains_key(name@) && t@ == self@[name@].proxy_type@,
                None => !self@.contains_key(name@),
            },
    {
        match self.routes.get(name) {
            Some(route) => Some(route.proxy_type.clone()),
            None => None,
        }
    }

    /// The PROXY protocol setting of the named rule.
    pub fn get_proxy_protocol(&self, name: &str) -> (r: Option<String>)
        requires
            self.wf(),
        ensures
            match r {
                Some(p) => self@.contains_key(name@) && p@ == self@[name@].proxy_protocol@,
                None => !self@.contains_key(name@),
            },
    {
        match self.routes.get(name) {
            Some(route) => Some(route.proxy_protocol.clone()),
            None => None,
        }
    }
}

} // verus!
