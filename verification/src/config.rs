//! Configuration data of the server and the client.
use vstd::prelude::*;

use crate::text::{str_eq, string_views};

verus! {

/// Server configuration.
pub struct ServerConfig {
    pub server: ServerSection,
    pub web: WebSection,
    pub tls: TlsSection,
}

/// Tunnel listener settings of the server.
pub struct ServerSection {
    pub bind_addr: String,
    pub bind_port: u16,
    pub token: String,
    /// Shared HTTP proxy port (0: none).
    pub http_port: u16,
    /// Shared HTTPS proxy port (0: none).
    pub https_port: u16,
}

/// Default lifetime of a web panel token, in hours.
pub fn default_token_expire_hours() -> (h: u64)
    ensures
        h == 24,
{
    24
}

/// Web panel settings.
pub struct WebSection {
    pub enable: bool,
    pub bind_addr: String,
    pub bind_port: u16,
    pub user: String,
    /// Panel password, in clear or as a bcrypt hash.
    pub password: String,
    /// Key that signs panel tokens (independent of the tunnel token).
    pub jwt_secret: String,
    /// Lifetime of a panel token, in hours.
    pub token_expire_hours: u64,
    /// Origins allowed to call the panel from elsewhere (empty: same origin).
    pub cors_origins: Vec<String>,
}

/// TLS settings of the server.
pub struct TlsSection {
    pub auto_cert: bool,
    pub cert_file: String,
    pub key_file: String,
}

/// Client configuration: only how to reach the server.
pub struct ClientConfig {
    pub client: ClientSection,
}

/// Connection settings of a client.
pub struct ClientSection {
    /// Identifier that proxy rules name.
    pub id: String,
    pub server_addr: String,
    pub server_port: u16,
    pub token: String,
    /// CA certificate of the server (empty: trust a self-signed one).
    pub ca_cert: String,
    /// Name to verify the server certificate against (empty: `server_addr`).
    pub server_name: String,
}

/// A proxy rule, as the server stores it.
pub struct ProxyRule {
    pub name: String,
    pub proxy_type: ProxyType,
    /// The client that serves this rule.
    pub client_id: String,
    /// Address of the service on the client side.
    pub local_ip: String,
    pub local_port: u16,
    /// Public port on the server (TCP and UDP).
    pub remote_port: u16,
    /// Domains that route to this rule (HTTP and HTTPS).
    pub custom_domains: Vec<String>,
    /// PROXY protocol version: empty (off), `v1` or `v2`.
    pub proxy_protocol: String,
}

/// A proxy rule as plain values.
pub struct ProxyRuleModel {
    pub name: Seq<char>,
    pub proxy_type: ProxyType,
    pub client_id: Seq<char>,
    pub local_ip: Seq<char>,
    pub local_port: u16,
    pub remote_port: u16,
    pub custom_domains: Seq<Seq<char>>,
    pub proxy_protocol: Seq<char>,
}

impl ProxyRule {
    /// A copy of this rule.
    pub fn duplicate(&self) -> (r: Self)
        ensures
            r.model() == self.model(),
    {
        let custom_domains = self.custom_domains.clone();
        assert(string_views(custom_domains@) =~= string_views(self.custom_domains@)) by {
            assert forall|i: int| 0 <= i < custom_domains@.len() implies custom_domains@[i] == self.custom_domains@[i] by {
                assert(cloned::<String>(self.custom_domains[i], custom_domains[i]));
            }
        }
        ProxyRule {
            name: self.name.clone(),
            proxy_type: self.proxy_type,
            client_id: self.client_id.clone(),
            local_ip: self.local_ip.clone(),
            local_port: self.local_port,
            remote_port: self.remote_port,
            custom_domains,
            proxy_protocol: self.proxy_protocol.clone(),
        }
    }

    /// This rule as plain values.
    pub open spec fn model(&self) -> ProxyRuleModel {
        ProxyRuleModel {
            name: self.name@,
            proxy_type: self.proxy_type,
            client_id: self.client_id@,
            local_ip: self.local_ip@,
            local_port: self.local_port,
            remote_port: self.remote_port,
            custom_domains: string_views(self.custom_domains@),
            proxy_protocol: self.proxy_protocol@,
        }
    }
}

/// Proxy protocol kind of a rule.
#[derive(Debug, Clone, Copy, PartialEq, Eq, Hash, Structural)]
pub enum ProxyType {
    Tcp,
    Udp,
    Http,
    Https,
}

/// The lowercase name of a proxy type.
pub open spec fn proxy_type_name(t: ProxyType) -> Seq<char> {
    match t {
        ProxyType::Tcp => seq!['t', 'c', 'p'],
        ProxyType::Udp => seq!['u', 'd', 'p'],
        ProxyType::Http => seq!['h', 't', 't', 'p'],
        ProxyType::Https => seq!['h', 't', 't', 'p', 's'],
    }
}

impl ProxyType {
    /// The lowercase name of the type, as written in rules and messages.
    pub fn as_str(&self) -> (s: &'static str)
        ensures
            s@ == proxy_type_name(*self),
    {
        proof {
            reveal_strlit("tcp");
            reveal_strlit("udp");
            reveal_strlit("http");
            reveal_strlit("https");
        }
        match self {
            ProxyType::Tcp => "tcp",
            ProxyType::Udp => "udp",
            ProxyType::Http => "http",
            ProxyType::Https => "https",
        }
    }
}

/// The proxy type a stored name stands for; an unknown name counts as TCP.
pub open spec fn proxy_type_of_name(s: Seq<char>) -> ProxyType {
    if s == proxy_type_name(ProxyType::Udp) {
        ProxyType::Udp
    } else if s == proxy_type_name(ProxyType::Http) {
        ProxyType::Http
    } else if s == proxy_type_name(ProxyType::Https) {
        ProxyType::Https
    } else {
        ProxyType::Tcp
    }
}

/// The proxy type with the given name, if any.
pub open spec fn proxy_type_named(s: Seq<char>) -> Option<ProxyType> {
    if s == proxy_type_name(ProxyType::Tcp) {
        Some(ProxyType::Tcp)
    } else if s == proxy_type_name(ProxyType::Udp) {
        Some(ProxyType::Udp)
    } else if s == proxy_type_name(ProxyType::Http) {
        Some(ProxyType::Http)
    } else if s == proxy_type_name(ProxyType::Https) {
        Some(ProxyType::Https)
    } else {
        None
    }
}

/// The proxy type named `s` (`tcp`, `udp`, `http` or `https`), if any.
pub fn proxy_type_from_name(s: &str) -> (r: Option<ProxyType>)
    ensures
        r == proxy_type_named(s@),
{
    proof {
        reveal_strlit("tcp");
        reveal_strlit("udp");
        reveal_strlit("http");
        reveal_strlit("https");
        assert("tcp"@ =~= proxy_type_name(ProxyType::Tcp));
        assert("udp"@ =~= proxy_type_name(ProxyType::Udp));
        assert("http"@ =~= proxy_type_name(ProxyType::Http));
        assert("https"@ =~= proxy_type_name(ProxyType::Https));
    }
    if str_eq(s, "tcp") {
        Some(ProxyType::Tcp)
    } else if str_eq(s, "udp") {
        Some(ProxyType::Udp)
    } else if str_eq(s, "http") {
        Some(ProxyType::Http)
    } else if str_eq(s, "https") {
        Some(ProxyType::Https)
    } else {
        None
    }
}

/// Reads a stored proxy type; an unknown name counts as TCP.
pub fn parse_proxy_type(s: &str) -> (t: ProxyType)
    ensures
        t == proxy_type_of_name(s@),
{
    match proxy_type_from_name(s) {
        Some(t) => t,
        None => ProxyType::Tcp,
    }
}

/// Each type is read back from its own name.
pub proof fn lemma_proxy_type_name_roundtrip(t: ProxyType)
    ensures
        proxy_type_named(proxy_type_name(t)) == Some(t),
        proxy_type_of_name(proxy_type_name(t)) == t,
{
    assert(proxy_type_name(ProxyType::Tcp).len() == 3);
    assert(proxy_type_name(ProxyType::Udp).len() == 3);
    assert(proxy_type_name(ProxyType::Http).len() == 4);
    assert(proxy_type_name(ProxyType::Https).len() == 5);
    assert(proxy_type_name(ProxyType::Tcp)[0] != proxy_type_name(ProxyType::Udp)[0]);
    assert(proxy_type_name(ProxyType::Tcp) != proxy_type_name(ProxyType::Udp));
    assert(proxy_type_name(ProxyType::Tcp) != proxy_type_name(ProxyType::Http));
    assert(proxy_type_name(ProxyType::Tcp) != proxy_type_name(ProxyType::Https));
    assert(proxy_type_name(ProxyType::Udp) != proxy_type_name(ProxyType::Http));
    assert(proxy_type_name(ProxyType::Udp) != proxy_type_name(ProxyType::Https));
    assert(proxy_type_name(ProxyType::Http) != proxy_type_name(ProxyType::Https));
}

} // verus!
