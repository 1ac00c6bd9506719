//! The rules of the management API: which requests are accepted, how a
//! rule is created, updated and deleted, and what each call answers. The
//! HTTP plumbing and the JSON bodies live with the web server program.
use vstd::prelude::*;

use crate::config::{proxy_type_name, proxy_type_named, proxy_type_from_name, ProxyRule, ProxyRuleModel, ProxyType, WebSection};
use crate::proto::message::ServerAssignProxyRequest;
use crate::proxy_manager::{rule_read, rule_row, shows_state, ProxyEntry, ProxyManager};
use crate::config::proxy_type_of_name;
use crate::db::RowModel;
use crate::rate_limit::{login_outcome, LoginOutcome, LoginRateLimiter};
use crate::auth::password_accepted;
use crate::runtime::fresh_state;
use crate::text::{append, contains_str, owned, str_eq, string_views};
use crate::validate::{
    client_id_error, client_id_ok, domain_error, first_bad_domain, proxy_name_error, proxy_name_ok,
    proxy_protocol_ok, validate_client_id, validate_domains, validate_port, validate_proxy_name,
    validate_proxy_protocol,
};

verus! {

/// A refused API call: the response code and its message.
pub struct ApiError {
    pub code: u16,
    pub message: String,
}

/// A request to create a proxy rule.
pub struct CreateProxyRequest {
    pub name: String,
    /// `tcp`, `udp`, `http` or `https`.
    pub proxy_type: String,
    pub client_id: String,
    pub local_ip: String,
    pub local_port: u16,
    /// 0 when the request leaves it out.
    pub remote_port: u16,
    pub custom_domains: Vec<String>,
    pub proxy_protocol: String,
}

/// A request to change some fields of a proxy rule.
pub struct UpdateProxyRequest {
    pub proxy_type: Option<String>,
    pub client_id: Option<String>,
    pub local_ip: Option<String>,
    pub local_port: Option<u16>,
    pub remote_port: Option<u16>,
    pub custom_domains: Option<Vec<String>>,
    pub proxy_protocol: Option<String>,
}

/// A client and whether it is connected.
pub struct ClientInfo {
    pub id: String,
    pub online: bool,
}

/// The message for an address that does not parse as an IP address.
pub open spec fn ip_error(ip: Seq<char>) -> Seq<char> {
    "无效的 IP 地址格式: "@ + ip
}

/// The message for a zero port.
pub open spec fn port_error(field: Seq<char>) -> Seq<char> {
    field + " 不能为 0"@
}

/// The message for a refused PROXY protocol setting.
pub open spec fn protocol_error(p: Seq<char>) -> Seq<char> {
    "无效的 proxy_protocol: "@ + p + "，仅支持空/v1/v2"@
}

/// The message for an unknown proxy type.
pub open spec fn unsupported_type_error(t: Seq<char>) -> Seq<char> {
    "不支持的代理类型: "@ + t
}

/// The message for a rule that is not stored.
pub open spec fn not_found_error(name: Seq<char>) -> Seq<char> {
    "代理规则不存在: "@ + name
}

/// Types named so need a public port.
pub open spec fn needs_remote_port(t: Seq<char>) -> bool {
    t == "tcp"@ || t == "udp"@
}

/// Why a create request is refused: the first check that fails, in the
/// order the panel checks them; nothing when all pass. `ip_valid` says
/// whether `local_ip` parses as an IP address.
pub open spec fn create_error(req: CreateProxyRequest, ip_valid: bool) -> Option<Seq<char>> {
    if !proxy_name_ok(req.name@) {
        Some(proxy_name_error(req.name@))
    } else if !client_id_ok(req.client_id@) {
        Some(client_id_error(req.client_id@))
    } else if !ip_valid {
        Some(ip_error(req.local_ip@))
    } else if req.local_port == 0 {
        Some(port_error("local_port"@))
    } else if needs_remote_port(req.proxy_type@) && req.remote_port == 0 {
        Some(port_error("remote_port"@))
    } else if first_bad_domain(string_views(req.custom_domains@)) is Some {
        Some(domain_error(first_bad_domain(string_views(req.custom_domains@))->0))
    } else if !proxy_protocol_ok(req.proxy_protocol@) {
        Some(protocol_error(req.proxy_protocol@))
    } else if proxy_type_named(req.proxy_type@) is None {
        Some(unsupported_type_error(req.proxy_type@))
    } else {
        None
    }
}

/// The rule a create request asks for, of type `t`.
pub open spec fn requested_rule(req: CreateProxyRequest, t: ProxyType) -> ProxyRuleModel {
    ProxyRuleModel {
        name: req.name@,
        proxy_type: t,
        client_id: req.client_id@,
        local_ip: req.local_ip@,
        local_port: req.local_port,
        remote_port: req.remote_port,
        custom_domains: string_views(req.custom_domains@),
        proxy_protocol: req.proxy_protocol@,
    }
}

/// `a` followed by `b`.
fn concat(a: &str, b: &str) -> (m: String)
    ensures
        m@ == a@ + b@,
{
    let mut m = owned(a);
    append(&mut m, b);
    m
}

/// A refusal with code 400.
fn bad_request(message: String) -> (e: ApiError)
    ensures
        e.code == 400,
        e.message == message,
{
    ApiError { code: 400, message }
}

/// Checks a create request in the panel's order; on success gives the
/// requested proxy type. `ip_valid` says whether `local_ip` parses as an IP
/// address.
pub fn validate_create_request(req: &CreateProxyRequest, ip_valid: bool) -> (r: Result<
    ProxyType,
    String,
>)
    ensures
        match r {
            Ok(t) => create_error(*req, ip_valid) is None && proxy_type_named(req.proxy_type@)
                == Some(t),
            Err(m) => create_error(*req, ip_valid) == Some(m@),
        },
{
    proof {
        reveal_strlit("local_port");
        reveal_strlit("remote_port");
    }
    if let Err(e) = validate_proxy_name(req.name.as_str()) {
        return Err(e);
    }
    if let Err(e) = validate_client_id(req.client_id.as_str()) {
        return Err(e);
    }
    if !ip_valid {
        return Err(concat("无效的 IP 地址格式: ", req.local_ip.as_str()));
    }
    if let Err(e) = validate_port(req.local_port, "local_port") {
        return Err(e);
    }
    if str_eq(req.proxy_type.as_str(), "tcp") || str_eq(req.proxy_type.as_str(), "udp") {
        if let Err(e) = validate_port(req.remote_port, "remote_port") {
            return Err(e);
        }
    }
    if let Err(e) = validate_domains(&req.custom_domains) {
        return Err(e);
    }
    if let Err(e) = validate_proxy_protocol(req.proxy_protocol.as_str()) {
        return Err(e);
    }
    match proxy_type_from_name(req.proxy_type.as_str()) {
        Some(t) => Ok(t),
        None => Err(concat("不支持的代理类型: ", req.proxy_type.as_str())),
    }
}

/// Creates a proxy rule: the request is checked (`ip_valid` says whether
/// `local_ip` parses as an IP address), then the rule is added to the
/// manager. Every refusal has code 400. Gives back the stored rule.
pub fn create_proxy(pm: &mut ProxyManager, req: CreateProxyRequest, ip_valid: bool) -> (r: Result<
    ProxyRule,
    ApiError,
>)
    requires
        old(pm).wf(),
    ensures
        final(pm).wf(),
        r matches Err(e) ==> e.code == 400 && final(pm).runtime() == old(pm).runtime(),
        create_error(req, ip_valid) matches Some(m) ==> (r matches Err(e) && e.message@ == m),
        create_error(req, ip_valid) is None && old(pm).runtime().contains_key(req.name@) ==> (r matches Err(e)
            && e.message@ == "代理规则名称已存在: "@ + req.name@),
        r matches Ok(rule) ==> create_error(req, ip_valid) is None && rule.model() == requested_rule(
            req,
            proxy_type_named(req.proxy_type@)->0,
        ) && final(pm).runtime() == old(pm).runtime().insert(req.name@, fresh_state()),
        r matches Ok(rule) ==> !old(pm).rows().contains_key(req.name@) && final(pm).rows() == old(
            pm,
        ).rows().insert(req.name@, rule_row(req.name@, rule.model())),
        r is Err ==> final(pm).rows() == old(pm).rows(),
        old(pm).rows().contains_key(req.name@) ==> r is Err,
        create_error(req, ip_valid) is None && !old(pm).runtime().contains_key(req.name@) ==> (r is Ok
            || (r matches Err(e) && e.code == 400 && exists|t: Seq<char>|
            e.message@ == "数据库写入失败: "@ + t)),
{
    let proxy_type = match validate_create_request(&req, ip_valid) {
        Ok(t) => t,
        Err(m) => {
            return Err(bad_request(m));
        },
    };
    let rule = ProxyRule {
        name: req.name,
        proxy_type,
        client_id: req.client_id,
        local_ip: req.local_ip,
        local_port: req.local_port,
        remote_port: req.remote_port,
        custom_domains: req.custom_domains,
        proxy_protocol: req.proxy_protocol,
    };
    match pm.add_proxy(rule.duplicate()) {
        Ok(()) => Ok(rule),
        Err(e) => Err(bad_request(e)),
    }
}

/// Why an update request is refused: the first check of a given field that
/// fails, in the panel's order; nothing when all pass. `ip_valid` says
/// whether the given `local_ip`, if any, parses as an IP address.
pub open spec fn update_error(req: UpdateProxyRequest, ip_valid: bool) -> Option<Seq<char>> {
    if req.proxy_type matches Some(t) && proxy_type_named(t@) is None {
        Some(unsupported_type_error(req.proxy_type->0@))
    } else if req.client_id matches Some(id) && !client_id_ok(id@) {
        Some(client_id_error(req.client_id->0@))
    } else if req.local_ip is Some && !ip_valid {
        Some(ip_error(req.local_ip->0@))
    } else if req.local_port == Some(0u16) {
        Some(port_error("local_port"@))
    } else if req.custom_domains matches Some(ds) && first_bad_domain(string_views(ds@)) is Some {
        Some(domain_error(first_bad_domain(string_views(req.custom_domains->0@))->0))
    } else if req.proxy_protocol matches Some(p) && !proxy_protocol_ok(p@) {
        Some(protocol_error(req.proxy_protocol->0@))
    } else {
        None
    }
}

/// The type a rule of type `stored` has after an update: the one the
/// request names, else its own.
pub open spec fn merged_type(req: UpdateProxyRequest, stored: ProxyType) -> ProxyType {
    match req.proxy_type {
        Some(t) => match proxy_type_named(t@) {
            Some(pt) => pt,
            None => stored,
        },
        None => stored,
    }
}

/// An update that sets the public port to 0 on a rule that ends up of type
/// `t`: refused for TCP and UDP, which need a public port.
pub open spec fn remote_port_refused(req: UpdateProxyRequest, t: ProxyType) -> bool {
    req.remote_port == Some(0u16) && (t == ProxyType::Tcp || t == ProxyType::Udp)
}

/// The update is refused for its port, given the stored rows `rows`.
pub open spec fn port_refused_for(req: UpdateProxyRequest, rows: Map<Seq<char>, RowModel>, name: Seq<char>) -> bool {
    rows.contains_key(name) && remote_port_refused(req, merged_type(req, proxy_type_of_name(rows[name].1)))
}

/// The rule named `name` that an update makes of `existing`: each field
/// the request gives replaces the stored one.
pub open spec fn merged_rule(name: Seq<char>, existing: ProxyRuleModel, req: UpdateProxyRequest) -> ProxyRuleModel {
    ProxyRuleModel {
        name,
        proxy_type: merged_type(req, existing.proxy_type),
        client_id: match req.client_id {
            Some(v) => v@,
            None => existing.client_id,
        },
        local_ip: match req.local_ip {
            Some(v) => v@,
            None => existing.local_ip,
        },
        local_port: match req.local_port {
            Some(v) => v,
            None => existing.local_port,
        },
        remote_port: match req.remote_port {
            Some(v) => v,
            None => existing.remote_port,
        },
        custom_domains: match req.custom_domains {
            Some(v) => string_views(v@),
            None => existing.custom_domains,
        },
        proxy_protocol: match req.proxy_protocol {
            Some(v) => v@,
            None => existing.proxy_protocol,
        },
    }
}

/// An update that gives no field keeps every stored field: only the name
/// is the one asked for.
pub proof fn lemma_empty_update_keeps_rule(name: Seq<char>, existing: ProxyRuleModel)
    ensures
        merged_rule(
            name,
            existing,
            UpdateProxyRequest {
                proxy_type: None,
                client_id: None,
                local_ip: None,
                local_port: None,
                remote_port: None,
                custom_domains: None,
                proxy_protocol: None,
            },
        ) == (ProxyRuleModel { name, ..existing }),
{
}

/// Checks the fields an update request gives, in the panel's order.
/// `ip_valid` says whether the given `local_ip`, if any, parses as an IP
/// address.
pub fn validate_update_request(req: &UpdateProxyRequest, ip_valid: bool) -> (r: Result<(), String>)
    ensures
        match r {
            Ok(()) => update_error(*req, ip_valid) is None,
            Err(m) => update_error(*req, ip_valid) == Some(m@),
        },
{
    proof {
        reveal_strlit("local_port");
        reveal_strlit("remote_port");
    }
    if let Some(t) = &req.proxy_type {
        if proxy_type_from_name(t.as_str()).is_none() {
            return Err(concat("不支持的代理类型: ", t.as_str()));
        }
    }
    if let Some(id) = &req.client_id {
        if let Err(e) = validate_client_id(id.as_str()) {
            return Err(e);
        }
    }
    if let Some(ip) = &req.local_ip {
        if !ip_valid {
            return Err(concat("无效的 IP 地址格式: ", ip.as_str()));
        }
    }
    if let Some(port) = req.local_port {
        if let Err(e) = validate_port(port, "local_port") {
            return Err(e);
        }
    }
    if let Some(domains) = &req.custom_domains {
        if let Err(e) = validate_domains(domains) {
            return Err(e);
        }
    }
    if let Some(p) = &req.proxy_protocol {
        if let Err(e) = validate_proxy_protocol(p.as_str()) {
            return Err(e);
        }
    }
    Ok(())
}

/// The rule named `name` that an update makes of `existing`.
pub fn merge_update(name: &str, existing: ProxyRule, req: UpdateProxyRequest) -> (rule: ProxyRule)
    ensures
        rule.model() == merged_rule(name@, existing.model(), req),
{
    let proxy_type = match &req.proxy_type {
        Some(t) => match proxy_type_from_name(t.as_str()) {
            Some(pt) => pt,
            None => existing.proxy_type,
        },
        None => existing.proxy_type,
    };
    ProxyRule {
        name: owned(name),
        proxy_type,
        client_id: match req.client_id {
            Some(v) => v,
            None => existing.client_id,
        },
        local_ip: match req.local_ip {
            Some(v) => v,
            None => existing.local_ip,
        },
        local_port: match req.local_port {
            Some(v) => v,
            None => existing.local_port,
        },
        remote_port: match req.remote_port {
            Some(v) => v,
            None => existing.remote_port,
        },
        custom_domains: match req.custom_domains {
            Some(v) => v,
            None => existing.custom_domains,
        },
        proxy_protocol: match req.proxy_protocol {
            Some(v) => v,
            None => existing.proxy_protocol,
        },
    }
}

/// Updates the rule named `name`: the request is checked (400), the
/// stored rule is read (404 when there is none), the given fields replace
/// its own, a public port of 0 is refused (400) when the rule ends up TCP
/// or UDP, and the result is stored (400 when that fails). Gives back the
/// rule as it was stored and the new rule.
pub fn update_proxy(pm: &mut ProxyManager, name: &str, req: UpdateProxyRequest, ip_valid: bool) -> (r:
    Result<(ProxyRule, ProxyRule), ApiError>)
    requires
        old(pm).wf(),
    ensures
        final(pm).wf(),
        final(pm).runtime() == old(pm).runtime(),
        r is Err ==> final(pm).rows() == old(pm).rows(),
        update_error(req, ip_valid) matches Some(m) ==> (r matches Err(e) && e.code == 400
            && e.message@ == m),
        update_error(req, ip_valid) is None && !old(pm).rows().contains_key(name@) ==> (r matches Err(e)
            && e.code == 404 && e.message@ == not_found_error(name@)),
        update_error(req, ip_valid) is None && port_refused_for(req, old(pm).rows(), name@) ==> r is Err,
        r matches Err(e) ==> e.code == 400 || (e.code == 404 && e.message@ == not_found_error(
            name@,
        )),
        r matches Err(e) ==> (update_error(req, ip_valid) is None && e.code == 400 ==> (
            (e.message@ == port_error("remote_port"@) && port_refused_for(req, old(pm).rows(), name@))
            || exists|t: Seq<char>| e.message@ == "数据库更新失败: "@ + t)),
        r matches Ok(pair) ==> update_error(req, ip_valid) is None && old(pm).rows().contains_key(name@)
            && rule_read(pair.0, old(pm).rows()[name@]) && pair.1.model() == merged_rule(
            name@,
            pair.0.model(),
            req,
        ) && !remote_port_refused(req, pair.1.proxy_type) && final(pm).rows() == old(pm).rows().insert(
            name@,
            rule_row(name@, pair.1.model()),
        ),
{
    if let Err(m) = validate_update_request(&req, ip_valid) {
        return Err(bad_request(m));
    }
    let existing = match pm.get_proxy(name) {
        Some(e) => e.rule,
        None => {
            return Err(ApiError { code: 404, message: concat("代理规则不存在: ", name) });
        },
    };
    let before = existing.duplicate();
    let zero_port = match req.remote_port {
        Some(p) => p == 0,
        None => false,
    };
    let ghost stored = existing.model();
    let ghost given = req;
    let updated = merge_update(name, existing, req);
    assert(updated.model() == merged_rule(name@, stored, given));
    proof {
        reveal_strlit("remote_port");
        assert(stored.proxy_type == proxy_type_of_name(old(pm).rows()[name@].1));
        assert(updated.proxy_type == merged_type(given, stored.proxy_type));
    }
    if zero_port && (updated.proxy_type == ProxyType::Tcp || updated.proxy_type == ProxyType::Udp) {
        let m = concat("remote_port", " 不能为 0");
        assert(port_refused_for(given, old(pm).rows(), name@));
        return Err(bad_request(m));
    }
    match pm.update_proxy(name, updated.duplicate()) {
        Ok(()) => Ok((before, updated)),
        Err(e) => Err(bad_request(e)),
    }
}

/// Deletes the rule named `name`: 404 when no stored rule has that name,
/// 400 when removing it fails. Gives back the rule as it was stored.
pub fn delete_proxy(pm: &mut ProxyManager, name: &str) -> (r: Result<ProxyRule, ApiError>)
    requires
        old(pm).wf(),
    ensures
        final(pm).wf(),
        r matches Err(e) ==> final(pm).runtime() == old(pm).runtime() && (e.code == 400 || (e.code
            == 404 && e.message@ == not_found_error(name@))),
        r is Err ==> final(pm).rows() == old(pm).rows(),
        !old(pm).rows().contains_key(name@) ==> (r matches Err(e) && e.code == 404),
        r matches Ok(rule) ==> rule.name@ == name@ && final(pm).runtime() == old(pm).runtime().remove(
            name@,
        ),
        r matches Ok(rule) ==> old(pm).rows().contains_key(name@) && rule_read(rule, old(pm).rows()[name@])
            && final(pm).rows() == old(pm).rows().remove(name@),
{
    let entry = match pm.get_proxy(name) {
        Some(e) => e,
        None => {
            return Err(ApiError { code: 404, message: concat("代理规则不存在: ", name) });
        },
    };
    match pm.remove_proxy(name) {
        Ok(_) => Ok(entry.rule),
        Err(e) => Err(bad_request(e)),
    }
}

/// The rule named `name` with its run-time state; 404 when there is none.
pub fn find_proxy(pm: &ProxyManager, name: &str) -> (r: Result<ProxyEntry, ApiError>)
    requires
        pm.wf(),
    ensures
        r matches Ok(e) ==> e.rule.name@ == name@ && shows_state(e, pm.runtime()),
        r matches Ok(e) ==> pm.rows().contains_key(name@) && rule_read(e.rule, pm.rows()[name@]),
        r matches Err(e) ==> e.code == 404 && e.message@ == not_found_error(name@),
        !pm.rows().contains_key(name@) ==> r is Err,
{
    match pm.get_proxy(name) {
        Some(e) => Ok(e),
        None => Err(ApiError { code: 404, message: concat("代理规则不存在: ", name) }),
    }
}

/// The rule named `name` read back after a write; code 500 with `failure`
/// when it cannot be read.
pub fn read_back(pm: &ProxyManager, name: &str, failure: &str) -> (r: Result<ProxyEntry, ApiError>)
    requires
        pm.wf(),
    ensures
        r matches Ok(e) ==> e.rule.name@ == name@ && shows_state(e, pm.runtime()),
        r matches Ok(e) ==> pm.rows().contains_key(name@) && rule_read(e.rule, pm.rows()[name@]),
        r matches Err(e) ==> e.code == 500 && e.message@ == failure@,
{
    match pm.get_proxy(name) {
        Some(e) => Ok(e),
        None => Err(ApiError { code: 500, message: owned(failure) }),
    }
}

/// The assignment a client receives for a rule.
pub fn assign_request(rule: &ProxyRule) -> (req: ServerAssignProxyRequest)
    ensures
        req.name@ == rule.name@,
        req.proxy_type@ == proxy_type_name(rule.proxy_type),
        req.local_ip@ == rule.local_ip@,
        req.local_port == rule.local_port,
        req.remote_port == rule.remote_port,
        string_views(req.custom_domains@) == string_views(rule.custom_domains@),
        req.proxy_protocol@ == rule.proxy_protocol@,
{
    let r = rule.duplicate();
    ServerAssignProxyRequest {
        name: r.name,
        proxy_type: owned(r.proxy_type.as_str()),
        local_ip: r.local_ip,
        local_port: r.local_port,
        remote_port: r.remote_port,
        custom_domains: r.custom_domains,
        proxy_protocol: r.proxy_protocol,
    }
}

/// Each known client, in order, with whether it is connected.
pub fn client_infos(all_clients: Vec<String>, connected: &Vec<String>) -> (out: Vec<ClientInfo>)
    ensures
        out@.len() == all_clients@.len(),
        forall|i: int|
            #![trigger out@[i]]
            0 <= i < out@.len() ==> out@[i].id@ == all_clients@[i]@ && out@[i].online
                == string_views(connected@).contains(all_clients@[i]@),
{
    let mut out: Vec<ClientInfo> = Vec::new();
    let mut i: usize = 0;
    while i < all_clients.len()
        invariant
            i <= all_clients@.len(),
            out@.len() == i,
            forall|j: int|
                #![trigger out@[j]]
                0 <= j < i ==> out@[j].id@ == all_clients@[j]@ && out@[j].online
                    == string_views(connected@).contains(all_clients@[j]@),
        decreases all_clients@.len() - i,
    {
        let id = all_clients[i].clone();
        let online = contains_str(connected, id.as_str());
        out.push(ClientInfo { id, online });
        i = i + 1;
    }
    out
}

/// The claims of a panel token.
pub struct JwtClaims {
    /// The user name.
    pub sub: String,
    /// Expiry, in seconds since the Unix epoch.
    pub exp: usize,
    /// Issue time, in seconds since the Unix epoch.
    pub iat: usize,
}

/// The claims of a token for `username` issued at `now` (seconds since the
/// Unix epoch) that lasts `expire_hours` hours.
pub fn jwt_claims(username: &str, now: u64, expire_hours: u64) -> (c: JwtClaims)
    requires
        expire_hours * 3600 + now <= u64::MAX,
    ensures
        c.sub@ == username@,
        c.iat == now as usize,
        c.exp == (now + expire_hours * 3600) as usize,
{
    JwtClaims { sub: owned(username), iat: now as usize, exp: (now + expire_hours * 3600) as usize }
}

/// Seconds a panel token stays accepted past its expiry.
pub const JWT_LEEWAY_SECS: u64 = 60;

/// A token that expires at `exp` is no longer accepted at `now` (both in
/// seconds since the Unix epoch).
pub open spec fn jwt_expired(exp: usize, now: u64) -> bool {
    exp + JWT_LEEWAY_SECS < now
}

/// The message for a refused panel token.
pub open spec fn jwt_refusal() -> Seq<char> {
    "Token 无效或已过期"@
}

/// Decides on the claims of a panel token at `now` (seconds since the Unix
/// epoch). `decoded` is what checking its signature with the panel key
/// gave: its claims, or nothing when the token is malformed or not signed
/// with that key. The token is refused then, or when it expired more than
/// `JWT_LEEWAY_SECS` seconds ago; otherwise its claims come back.
pub fn check_jwt_claims(decoded: Option<JwtClaims>, now: u64) -> (r: Result<JwtClaims, String>)
    ensures
        decoded is None ==> (r matches Err(m) && m@ == jwt_refusal()),
        decoded matches Some(c) ==> (jwt_expired(c.exp, now) ==> (r matches Err(m) && m@ == jwt_refusal())),
        decoded matches Some(c) ==> (!jwt_expired(c.exp, now) ==> r == Ok::<JwtClaims, String>(c)),
{
    proof {
        reveal_strlit("Token 无效或已过期");
    }
    match decoded {
        None => Err(owned("Token 无效或已过期")),
        Some(c) => {
            if (c.exp as u128) + (JWT_LEEWAY_SECS as u128) < (now as u128) {
                Err(owned("Token 无效或已过期"))
            } else {
                Ok(c)
            }
        },
    }
}

/// The HS256 token (`jsonwebtoken`, default header) for the claims `sub`,
/// `iat` and `exp`, signed with `secret`.
pub uninterp spec fn jwt_hs256(sub: Seq<char>, iat: usize, exp: usize, secret: Seq<char>) -> Seq<char>;

/// What checking the HS256 signature of `token` with `secret` gives,
/// expiry not looked at: its claims `(sub, iat, exp)`, or nothing when the
/// token is malformed, not signed with that key, or lacks a claim.
pub uninterp spec fn jwt_hs256_claims(token: Seq<char>, secret: Seq<char>) -> Option<(Seq<char>, usize, usize)>;

/// `jsonwebtoken::encode` with the default (HS256) header on the claims
/// `sub`, `exp` and `iat` as a JSON object, keyed by `secret`: the token,
/// or the error text. Checking the token with the same key gives the
/// claims back.
#[verifier::external_body]
fn jwt_encode(sub: &str, iat: usize, exp: usize, secret: &str) -> (r: Result<String, String>)
    ensures
        r matches Ok(t) ==> t@ == jwt_hs256(sub@, iat, exp, secret@),
        r matches Ok(t) ==> jwt_hs256_claims(t@, secret@) == Some((sub@, iat, exp)),
{
    let mut claims = serde_json::Map::new();
    claims.insert("sub".to_string(), serde_json::Value::from(sub));
    claims.insert("exp".to_string(), serde_json::Value::from(exp));
    claims.insert("iat".to_string(), serde_json::Value::from(iat));
    let key = jsonwebtoken::EncodingKey::from_secret(secret.as_bytes());
    jsonwebtoken::encode(&jsonwebtoken::Header::default(), &claims, &key).map_err(|e| e.to_string())
}

/// `jsonwebtoken::decode` with the default (HS256) validation but expiry
/// off, keyed by `secret`: the claims `sub`, `iat` and `exp` of `token`,
/// or nothing when it does not check or a claim is missing or of another
/// type.
#[verifier::external_body]
fn jwt_decode(token: &str, secret: &str) -> (r: Option<(String, usize, usize)>)
    ensures
        r matches Some(c) ==> jwt_hs256_claims(token@, secret@) == Some((c.0@, c.1, c.2)),
        r is None ==> jwt_hs256_claims(token@, secret@) is None,
{
    let mut validation = jsonwebtoken::Validation::default();
    validation.validate_exp = false;
    let key = jsonwebtoken::DecodingKey::from_secret(secret.as_bytes());
    let c = jsonwebtoken::decode::<serde_json::Value>(token, &key, &validation).ok()?.claims;
    let sub = c.get("sub")?.as_str()?.to_string();
    let iat = usize::try_from(c.get("iat")?.as_u64()?).ok()?;
    let exp = usize::try_from(c.get("exp")?.as_u64()?).ok()?;
    Some((sub, iat, exp))
}

/// What checking a panel token at `now` answers: its claims while it has
/// not expired (with `JWT_LEEWAY_SECS` of leeway), else the refusal.
pub open spec fn jwt_validation(token: Seq<char>, secret: Seq<char>, now: u64) -> Result<
    (Seq<char>, usize, usize),
    Seq<char>,
> {
    match jwt_hs256_claims(token, secret) {
        None => Err(jwt_refusal()),
        Some(c) => if jwt_expired(c.2, now) {
            Err(jwt_refusal())
        } else {
            Ok(c)
        },
    }
}

/// Signs a panel token for `username`, issued at `now` (seconds since the
/// Unix epoch) and lasting `expire_hours` hours. The token checks, with
/// the same key, to those claims until it expires.
pub fn generate_jwt(username: &str, secret: &str, now: u64, expire_hours: u64) -> (r: Result<String, String>)
    requires
        expire_hours * 3600 + now <= u64::MAX,
    ensures
        r matches Ok(t) ==> t@ == jwt_hs256(
            username@,
            now as usize,
            (now + expire_hours * 3600) as usize,
            secret@,
        ),
        r matches Ok(t) ==> forall|later: u64|
            !jwt_expired((now + expire_hours * 3600) as usize, later) ==> #[trigger] jwt_validation(
                t@,
                secret@,
                later,
            ) == Ok::<(Seq<char>, usize, usize), Seq<char>>(
                (username@, now as usize, (now + expire_hours * 3600) as usize),
            ),
        r matches Err(m) ==> exists|e: Seq<char>| m@ == "Token 生成失败: "@ + e,
{
    let c = jwt_claims(username, now, expire_hours);
    match jwt_encode(c.sub.as_str(), c.iat, c.exp, secret) {
        Ok(t) => Ok(t),
        Err(e) => Err(concat("Token 生成失败: ", e.as_str())),
    }
}

/// Checks a panel token at `now` (seconds since the Unix epoch): its
/// signature with the key `secret`, then its expiry.
pub fn validate_jwt(token: &str, secret: &str, now: u64) -> (r: Result<JwtClaims, String>)
    ensures
        jwt_validation(token@, secret@, now) matches Ok(c) ==> (r matches Ok(d) && d.sub@ == c.0
            && d.iat == c.1 && d.exp == c.2),
        jwt_validation(token@, secret@, now) matches Err(m) ==> (r matches Err(e) && e@ == m),
{
    let decoded = match jwt_decode(token, secret) {
        Some((sub, iat, exp)) => Some(JwtClaims { sub, exp, iat }),
        None => None,
    };
    check_jwt_claims(decoded, now)
}

/// The key that signs and checks panel tokens: the panel's own
/// `jwt_secret`, not the tunnel token.
pub fn panel_jwt_secret(web: &WebSection) -> (key: &str)
    ensures
        key@ == web.jwt_secret@,
{
    web.jwt_secret.as_str()
}

/// A granted login: the claims of its token and how long the token lasts
/// (seconds).
pub struct LoginGrant {
    pub claims: JwtClaims,
    pub expires_in: u64,
}

/// Decides a panel login at `now` (monotonic nanoseconds, for the rate
/// limit) and `unix_now` (seconds since the Unix epoch, for the token):
/// 429 while the user is locked out, 401 for a wrong user name or password,
/// else the claims of a token that lasts the configured hours.
pub fn login(
    limiter: &mut LoginRateLimiter,
    username: &str,
    password: &str,
    web: &WebSection,
    now: u64,
    unix_now: u64,
) -> (r: Result<LoginGrant, ApiError>)
    requires
        web.token_expire_hours * 3600 + unix_now <= u64::MAX,
    ensures
        ({
            let (outcome, attempts) = login_outcome(
                old(limiter)@,
                username@,
                username@ == web.user@ && password_accepted(password@, web.password@),
                now,
            );
            &&& final(limiter)@ == attempts
            &&& outcome == LoginOutcome::RateLimited ==> (r matches Err(e) && e.code == 429
                && e.message@ == "登录尝试过于频繁，请稍后再试"@)
            &&& outcome == LoginOutcome::Rejected ==> (r matches Err(e) && e.code == 401
                && e.message@ == "用户名或密码错误"@)
            &&& outcome == LoginOutcome::Accepted ==> (r matches Ok(g) && g.claims.sub@ == username@
                && g.claims.iat == unix_now as usize && g.claims.exp == (unix_now
                + web.token_expire_hours * 3600) as usize && g.expires_in
                == web.token_expire_hours * 3600)
        }),
{
    let outcome = limiter.login(
        username,
        password,
        web.user.as_str(),
        web.password.as_str(),
        now,
    );
    match outcome {
        LoginOutcome::RateLimited => Err(
            ApiError { code: 429, message: owned("登录尝试过于频繁，请稍后再试") },
        ),
        LoginOutcome::Rejected => Err(ApiError { code: 401, message: owned("用户名或密码错误") }),
        LoginOutcome::Accepted => {
            let claims = jwt_claims(username, unix_now, web.token_expire_hours);
            Ok(LoginGrant { claims, expires_in: web.token_expire_hours * 3600 })
        },
    }
}

/// What the panel does with a request before it reaches a route.
pub enum AuthCheck {
    /// The path needs no token.
    Open,
    /// The path needs a token, and this is the bearer token given.
    Bearer(String),
    /// The path needs a token and none is given: 401.
    Refuse,
}

/// Paths that need no token: the health check, the login, the WebSocket
/// handshake and everything outside the API.
pub open spec fn open_path(path: Seq<char>) -> bool {
    path == "/health"@ || path == "/api/auth/login"@ || "/api/ws"@.is_prefix_of(path)
        || !"/api/"@.is_prefix_of(path)
}

/// Decides the token check of a request from its path and its
/// `Authorization` header.
pub fn auth_check(path: &str, authorization: Option<&str>) -> (r: AuthCheck)
    ensures
        open_path(path@) ==> r is Open,
        !open_path(path@) ==> match authorization {
            Some(h) => if "Bearer "@.is_prefix_of(h@) {
                (r matches AuthCheck::Bearer(t) && t@ == h@.skip(7))
            } else {
                r is Refuse
            },
            None => r is Refuse,
        },
{
    if str_eq(path, "/health") || str_eq(path, "/api/auth/login") || crate::text::str_starts_with(
        path,
        "/api/ws",
    ) || !crate::text::str_starts_with(path, "/api/") {
        return AuthCheck::Open;
    }
    match authorization {
        Some(h) => {
            if crate::text::str_starts_with(h, "Bearer ") {
                proof {
                    reveal_strlit("Bearer ");
                }
                AuthCheck::Bearer(crate::text::chars_after(h, 7))
            } else {
                AuthCheck::Refuse
            }
        },
        None => AuthCheck::Refuse,
    }
}

/// The query parameters of the WebSocket handshake.
pub struct WsParams {
    pub token: Option<String>,
}

/// Decides the token of a WebSocket handshake: none gives 401 `Missing
/// token`, an empty one 401 `Unauthorized`; else it is the token to check.
pub fn ws_token_check(params: &WsParams) -> (r: Result<String, ApiError>)
    ensures
        params.token is None ==> (r matches Err(e) && e.code == 401 && e.message@ == "Missing token"@),
        params.token matches Some(t) ==> (t@.len() == 0 ==> (r matches Err(e) && e.code == 401
            && e.message@ == "Unauthorized"@)),
        params.token matches Some(t) ==> (t@.len() > 0 ==> (r matches Ok(s) && s@ == t@)),
{
    match &params.token {
        None => Err(ApiError { code: 401, message: owned("Missing token") }),
        Some(t) => {
            if t.as_str().unicode_len() == 0 {
                Err(ApiError { code: 401, message: owned("Unauthorized") })
            } else {
                Ok(t.clone())
            }
        },
    }
}

/// Where a request outside the API routes goes.
pub enum StaticRoute {
    /// An unknown API path: a 404 JSON answer.
    ApiNotFound,
    /// A file of the panel, by its path without the leading slashes.
    Asset(String),
}

/// The path without its leading `/` characters.
pub open spec fn trim_slashes(path: Seq<char>) -> Seq<char>
    decreases path.len(),
{
    if path.len() > 0 && path[0] == '/' {
        trim_slashes(path.drop_first())
    } else {
        path
    }
}

/// Decides where a request outside the API routes goes.
pub fn static_route(path: &str) -> (r: StaticRoute)
    ensures
        "/api/"@.is_prefix_of(path@) ==> r is ApiNotFound,
        !"/api/"@.is_prefix_of(path@) ==> (r matches StaticRoute::Asset(p) && p@ == trim_slashes(
            path@,
        )),
{
    if crate::text::str_starts_with(path, "/api/") {
        return StaticRoute::ApiNotFound;
    }
    let cs = crate::text::str_chars(path);
    let mut i: usize = 0;
    assert(path@.skip(0) =~= path@);
    while i < cs.len() && cs[i] == '/'
        invariant
            cs@ == path@,
            i <= cs@.len(),
            trim_slashes(path@) == trim_slashes(path@.skip(i as int)),
        decreases cs@.len() - i,
    {
        assert(path@.skip(i as int).drop_first() =~= path@.skip(i + 1));
        i = i + 1;
    }
    assert(trim_slashes(path@.skip(i as int)) == path@.skip(i as int));
    StaticRoute::Asset(crate::text::chars_after(path, i))
}

} // verus!
