use rustproxy::api::{
    assign_request, auth_check, client_infos, create_proxy, delete_proxy, find_proxy, jwt_claims,
    login, merge_update, read_back, static_route, update_proxy, validate_create_request,
    validate_update_request, ws_token_check, check_jwt_claims, generate_jwt, validate_jwt, panel_jwt_secret, AuthCheck, CreateProxyRequest, StaticRoute,
    UpdateProxyRequest, WsParams,
};
use rustproxy::config::{ProxyRule, ProxyType, WebSection};
use rustproxy::proxy_manager::ProxyManager;
use rustproxy::rate_limit::LoginRateLimiter;

fn create_req(name: &str, proxy_type: &str) -> CreateProxyRequest {
    CreateProxyRequest {
        name: name.to_string(),
        proxy_type: proxy_type.to_string(),
        client_id: "client-1".to_string(),
        local_ip: "127.0.0.1".to_string(),
        local_port: 22,
        remote_port: 6000,
        custom_domains: vec![],
        proxy_protocol: String::new(),
    }
}

fn empty_update() -> UpdateProxyRequest {
    UpdateProxyRequest {
        proxy_type: None,
        client_id: None,
        local_ip: None,
        local_port: None,
        remote_port: None,
        custom_domains: None,
        proxy_protocol: None,
    }
}

fn web_section() -> WebSection {
    WebSection {
        enable: true,
        bind_addr: "0.0.0.0".to_string(),
        bind_port: 7500,
        user: "admin".to_string(),
        password: "secret".to_string(),
        jwt_secret: "k".to_string(),
        token_expire_hours: 24,
        cors_origins: vec![],
    }
}

fn create_error(req: CreateProxyRequest, ip_valid: bool) -> String {
    match validate_create_request(&req, ip_valid) {
        Ok(_) => panic!("request was accepted"),
        Err(m) => m,
    }
}

#[test]
fn create_checks_in_order() {
    assert_eq!(create_error(create_req("", "tcp"), true), "代理规则名称长度需在 1-64 之间");
    assert_eq!(create_error(create_req("a b", "tcp"), true), "代理规则名称仅允许字母、数字、横线和下划线");
    let mut r = create_req("ok", "tcp");
    r.client_id = "bad id".to_string();
    assert_eq!(create_error(r, true), "客户端 ID 仅允许字母、数字、横线、下划线和点号");
    let mut r = create_req("ok", "tcp");
    r.local_ip = "not-an-ip".to_string();
    assert_eq!(create_error(r, false), "无效的 IP 地址格式: not-an-ip");
    let mut r = create_req("ok", "tcp");
    r.local_port = 0;
    assert_eq!(create_error(r, true), "local_port 不能为 0");
    let mut r = create_req("ok", "udp");
    r.remote_port = 0;
    assert_eq!(create_error(r, true), "remote_port 不能为 0");
    let mut r = create_req("ok", "tcp");
    r.custom_domains = vec!["good.example".to_string(), "-bad.example".to_string()];
    assert_eq!(create_error(r, true), "域名格式无效: -bad.example");
    let mut r = create_req("ok", "tcp");
    r.custom_domains = vec!["bad domain".to_string()];
    assert_eq!(create_error(r, true), "域名包含非法字符: bad domain");
    let mut r = create_req("ok", "tcp");
    r.proxy_protocol = "v3".to_string();
    assert_eq!(create_error(r, true), "无效的 proxy_protocol: v3，仅支持空/v1/v2");
    assert_eq!(create_error(create_req("ok", "ftp"), true), "不支持的代理类型: ftp");
}

#[test]
fn http_rules_need_no_remote_port() {
    let mut r = create_req("web", "http");
    r.remote_port = 0;
    assert_eq!(validate_create_request(&r, true).ok(), Some(ProxyType::Http));
}

#[test]
fn create_adds_rule_and_refuses_duplicates() {
    let mut pm = ProxyManager::new().unwrap();
    let rule = match create_proxy(&mut pm, create_req("ssh", "tcp"), true) {
        Ok(r) => r,
        Err(e) => panic!("{} {}", e.code, e.message),
    };
    assert_eq!(rule.name, "ssh");
    assert_eq!(rule.proxy_type, ProxyType::Tcp);
    assert_eq!(rule.remote_port, 6000);
    let entry = read_back(&pm, "ssh", "创建成功但查询失败").ok().unwrap();
    assert_eq!(entry.rule.client_id, "client-1");
    match create_proxy(&mut pm, create_req("ssh", "udp"), true) {
        Ok(_) => panic!("duplicate accepted"),
        Err(e) => {
            assert_eq!(e.code, 400);
            assert_eq!(e.message, "代理规则名称已存在: ssh");
        }
    }
    match create_proxy(&mut pm, create_req("x", "tcp"), false) {
        Ok(_) => panic!("bad ip accepted"),
        Err(e) => {
            assert_eq!(e.code, 400);
            assert_eq!(e.message, "无效的 IP 地址格式: 127.0.0.1");
        }
    }
}

#[test]
fn read_back_of_missing_rule_is_500() {
    let pm = ProxyManager::new().unwrap();
    match read_back(&pm, "nothing", "更新成功但查询失败") {
        Ok(_) => panic!("found a missing rule"),
        Err(e) => {
            assert_eq!(e.code, 500);
            assert_eq!(e.message, "更新成功但查询失败");
        }
    }
}

#[test]
fn update_checks_given_fields_only() {
    assert!(validate_update_request(&empty_update(), false).is_ok());
    let mut u = empty_update();
    u.proxy_type = Some("smtp".to_string());
    assert_eq!(validate_update_request(&u, true).err(), Some("不支持的代理类型: smtp".to_string()));
    let mut u = empty_update();
    u.local_ip = Some("x".to_string());
    assert_eq!(validate_update_request(&u, false).err(), Some("无效的 IP 地址格式: x".to_string()));
    let mut u = empty_update();
    u.remote_port = Some(0);
    assert!(validate_update_request(&u, true).is_ok());
    let mut u = empty_update();
    u.custom_domains = Some(vec!["".to_string()]);
    assert_eq!(validate_update_request(&u, true).err(), Some("无效的域名长度: ".to_string()));
}

#[test]
fn merge_keeps_fields_not_given() {
    let existing = ProxyRule {
        name: "r".to_string(),
        proxy_type: ProxyType::Tcp,
        client_id: "c".to_string(),
        local_ip: "10.0.0.1".to_string(),
        local_port: 22,
        remote_port: 6000,
        custom_domains: vec!["a.example".to_string()],
        proxy_protocol: "v1".to_string(),
    };
    let mut u = empty_update();
    u.remote_port = Some(7000);
    u.proxy_type = Some("https".to_string());
    let merged = merge_update("r", existing, u);
    assert_eq!(merged.proxy_type, ProxyType::Https);
    assert_eq!(merged.remote_port, 7000);
    assert_eq!(merged.local_port, 22);
    assert_eq!(merged.client_id, "c");
    assert_eq!(merged.custom_domains, vec!["a.example"]);
    assert_eq!(merged.proxy_protocol, "v1");
}

#[test]
fn remote_port_zero_on_update_depends_on_the_resulting_type() {
    let mut pm = ProxyManager::new().unwrap();
    let mut web = create_req("web", "http");
    web.remote_port = 0;
    web.custom_domains = vec!["a.example".to_string()];
    assert!(create_proxy(&mut pm, web, true).is_ok());
    assert!(create_proxy(&mut pm, create_req("ssh", "tcp"), true).is_ok());
    let mut u = empty_update();
    u.remote_port = Some(0);
    match update_proxy(&mut pm, "web", u, true) {
        Ok((_, after)) => assert_eq!(after.remote_port, 0),
        Err(e) => panic!("{}", e.message),
    }
    assert_eq!(find_proxy(&pm, "web").ok().unwrap().rule.remote_port, 0);
    let mut u = empty_update();
    u.remote_port = Some(0);
    match update_proxy(&mut pm, "ssh", u, true) {
        Ok(_) => panic!("port 0 accepted for tcp"),
        Err(e) => {
            assert_eq!(e.code, 400);
            assert_eq!(e.message, "remote_port 不能为 0");
        }
    }
    assert_eq!(find_proxy(&pm, "ssh").ok().unwrap().rule.remote_port, 6000);
    let mut u = empty_update();
    u.remote_port = Some(0);
    u.proxy_type = Some("https".to_string());
    assert!(update_proxy(&mut pm, "ssh", u, true).is_ok());
    let mut u = empty_update();
    u.remote_port = Some(0);
    u.proxy_type = Some("udp".to_string());
    assert!(update_proxy(&mut pm, "web", u, true).is_err());
}

#[test]
fn create_with_port_zero_by_type() {
    let mut pm = ProxyManager::new().unwrap();
    let mut r = create_req("h", "https");
    r.remote_port = 0;
    let rule = create_proxy(&mut pm, r, true).ok().unwrap();
    assert_eq!(rule.remote_port, 0);
    assert_eq!(find_proxy(&pm, "h").ok().unwrap().rule.remote_port, 0);
    let mut r = create_req("u", "udp");
    r.remote_port = 0;
    match create_proxy(&mut pm, r, true) {
        Ok(_) => panic!("port 0 accepted for udp"),
        Err(e) => {
            assert_eq!(e.code, 400);
            assert_eq!(e.message, "remote_port 不能为 0");
        }
    }
    assert!(find_proxy(&pm, "u").is_err());
}

#[test]
fn panel_tokens_expire_after_the_leeway() {
    let c = jwt_claims("admin", 1000, 1);
    assert_eq!(check_jwt_claims(Some(jwt_claims("admin", 1000, 1)), 1000 + 3600 + 60).ok().unwrap().sub, "admin");
    assert_eq!(check_jwt_claims(Some(c), 1000 + 3600 + 61).err(), Some("Token 无效或已过期".to_string()));
    assert_eq!(check_jwt_claims(None, 0).err(), Some("Token 无效或已过期".to_string()));
    let web = web_section();
    assert_eq!(panel_jwt_secret(&web), web.jwt_secret);
}

#[test]
fn update_and_delete_through_the_api() {
    let mut pm = ProxyManager::new().unwrap();
    assert!(create_proxy(&mut pm, create_req("r1", "tcp"), true).is_ok());
    let mut u = empty_update();
    u.local_port = Some(2222);
    let (before, updated) = match update_proxy(&mut pm, "r1", u, true) {
        Ok(r) => r,
        Err(e) => panic!("{}", e.message),
    };
    assert_eq!(before.local_port, 22);
    assert_eq!(updated.local_port, 2222);
    assert_eq!(find_proxy(&pm, "r1").ok().unwrap().rule.local_port, 2222);
    match update_proxy(&mut pm, "missing", empty_update(), true) {
        Ok(_) => panic!("missing rule updated"),
        Err(e) => {
            assert_eq!(e.code, 404);
            assert_eq!(e.message, "代理规则不存在: missing");
        }
    }
    let removed = match delete_proxy(&mut pm, "r1") {
        Ok(r) => r,
        Err(e) => panic!("{}", e.message),
    };
    assert_eq!(removed.name, "r1");
    match delete_proxy(&mut pm, "r1") {
        Ok(_) => panic!("deleted twice"),
        Err(e) => assert_eq!(e.code, 404),
    }
    match find_proxy(&pm, "r1") {
        Ok(_) => panic!("found deleted rule"),
        Err(e) => assert_eq!(e.message, "代理规则不存在: r1"),
    }
}

#[test]
fn assignment_copies_the_rule() {
    let rule = ProxyRule {
        name: "web".to_string(),
        proxy_type: ProxyType::Http,
        client_id: "c".to_string(),
        local_ip: "127.0.0.1".to_string(),
        local_port: 80,
        remote_port: 0,
        custom_domains: vec!["example.com".to_string()],
        proxy_protocol: "v2".to_string(),
    };
    let a = assign_request(&rule);
    assert_eq!(a.name, "web");
    assert_eq!(a.proxy_type, "http");
    assert_eq!(a.local_port, 80);
    assert_eq!(a.custom_domains, vec!["example.com"]);
    assert_eq!(a.proxy_protocol, "v2");
}

#[test]
fn clients_are_marked_online() {
    let all = vec!["a".to_string(), "b".to_string(), "c".to_string()];
    let connected = vec!["c".to_string(), "a".to_string()];
    let infos = client_infos(all, &connected);
    let got: Vec<(String, bool)> = infos.into_iter().map(|i| (i.id, i.online)).collect();
    assert_eq!(
        got,
        vec![("a".to_string(), true), ("b".to_string(), false), ("c".to_string(), true)]
    );
}

#[test]
fn token_claims() {
    let c = jwt_claims("admin", 1_700_000_000, 24);
    assert_eq!(c.sub, "admin");
    assert_eq!(c.iat, 1_700_000_000);
    assert_eq!(c.exp, 1_700_000_000 + 24 * 3600);
}

#[test]
fn login_accepts_locks_out_and_clears() {
    let web = web_section();
    let mut limiter = LoginRateLimiter::new();
    match login(&mut limiter, "admin", "secret", &web, 0, 1000) {
        Ok(g) => {
            assert_eq!(g.expires_in, 86400);
            assert_eq!(g.claims.sub, "admin");
            assert_eq!(g.claims.exp, 1000 + 86400);
        }
        Err(e) => panic!("{}", e.message),
    }
    for i in 0..5u64 {
        match login(&mut limiter, "admin", "wrong", &web, i, 1000) {
            Ok(_) => panic!("wrong password accepted"),
            Err(e) => {
                assert_eq!(e.code, 401);
                assert_eq!(e.message, "用户名或密码错误");
            }
        }
    }
    match login(&mut limiter, "admin", "secret", &web, 10, 1000) {
        Ok(_) => panic!("locked out user accepted"),
        Err(e) => {
            assert_eq!(e.code, 429);
            assert_eq!(e.message, "登录尝试过于频繁，请稍后再试");
        }
    }
    let later = 4 + 301 * 1_000_000_000u64;
    assert!(login(&mut limiter, "admin", "secret", &web, later, 2000).is_ok());
    assert!(login(&mut limiter, "admin", "wrong", &web, later + 1, 2000).is_err());
    assert!(login(&mut limiter, "admin", "secret", &web, later + 2, 2000).is_ok());
}

#[test]
fn lockout_counts_from_the_fifth_failure() {
    let web = web_section();
    let mut limiter = LoginRateLimiter::new();
    let sec = 1_000_000_000u64;
    for i in 0..5u64 {
        assert!(login(&mut limiter, "admin", "wrong", &web, i * 1000 * sec, 0).is_err());
    }
    let fifth = 4 * 1000 * sec;
    match login(&mut limiter, "admin", "secret", &web, fifth + sec, 0) {
        Ok(_) => panic!("locked out user accepted"),
        Err(e) => assert_eq!(e.code, 429),
    }
    match login(&mut limiter, "admin", "secret", &web, fifth + 300 * sec, 0) {
        Ok(_) => panic!("locked out user accepted"),
        Err(e) => assert_eq!(e.code, 429),
    }
    assert!(login(&mut limiter, "admin", "secret", &web, fifth + 301 * sec, 0).is_ok());
}

#[test]
fn wrong_user_is_rejected() {
    let web = web_section();
    let mut limiter = LoginRateLimiter::new();
    match login(&mut limiter, "root", "secret", &web, 0, 0) {
        Ok(_) => panic!("wrong user accepted"),
        Err(e) => assert_eq!(e.code, 401),
    }
}

#[test]
fn auth_check_paths() {
    assert!(matches!(auth_check("/health", None), AuthCheck::Open));
    assert!(matches!(auth_check("/api/auth/login", None), AuthCheck::Open));
    assert!(matches!(auth_check("/api/ws?token=x", None), AuthCheck::Open));
    assert!(matches!(auth_check("/index.html", None), AuthCheck::Open));
    assert!(matches!(auth_check("/api/proxies", None), AuthCheck::Refuse));
    assert!(matches!(auth_check("/api/proxies", Some("Basic abc")), AuthCheck::Refuse));
    match auth_check("/api/proxies", Some("Bearer abc.def")) {
        AuthCheck::Bearer(t) => assert_eq!(t, "abc.def"),
        _ => panic!("expected a bearer token"),
    }
}

#[test]
fn ws_token_cases() {
    match ws_token_check(&WsParams { token: None }) {
        Ok(_) => panic!("no token accepted"),
        Err(e) => {
            assert_eq!(e.code, 401);
            assert_eq!(e.message, "Missing token");
        }
    }
    match ws_token_check(&WsParams { token: Some(String::new()) }) {
        Ok(_) => panic!("empty token accepted"),
        Err(e) => assert_eq!(e.message, "Unauthorized"),
    }
    assert_eq!(ws_token_check(&WsParams { token: Some("t".to_string()) }).ok(), Some("t".to_string()));
}

#[test]
fn static_routes() {
    assert!(matches!(static_route("/api/nothing"), StaticRoute::ApiNotFound));
    match static_route("//assets/app.js") {
        StaticRoute::Asset(p) => assert_eq!(p, "assets/app.js"),
        _ => panic!("expected an asset"),
    }
    match static_route("/") {
        StaticRoute::Asset(p) => assert_eq!(p, ""),
        _ => panic!("expected an asset"),
    }
}

#[test]
fn empty_update_keeps_everything_but_the_name() {
    let existing = ProxyRule {
        name: "old".to_string(),
        proxy_type: ProxyType::Udp,
        client_id: "c".to_string(),
        local_ip: "10.0.0.2".to_string(),
        local_port: 53,
        remote_port: 5353,
        custom_domains: vec!["x.example".to_string()],
        proxy_protocol: "v2".to_string(),
    };
    let merged = merge_update("new", existing, empty_update());
    assert_eq!(merged.name, "new");
    assert_eq!(merged.proxy_type, ProxyType::Udp);
    assert_eq!(merged.client_id, "c");
    assert_eq!(merged.local_ip, "10.0.0.2");
    assert_eq!(merged.local_port, 53);
    assert_eq!(merged.remote_port, 5353);
    assert_eq!(merged.custom_domains, vec!["x.example"]);
    assert_eq!(merged.proxy_protocol, "v2");
}

#[test]
fn unknown_type_in_update_keeps_the_stored_type() {
    let existing = ProxyRule {
        name: "r".to_string(),
        proxy_type: ProxyType::Http,
        client_id: "c".to_string(),
        local_ip: "10.0.0.2".to_string(),
        local_port: 80,
        remote_port: 0,
        custom_domains: vec![],
        proxy_protocol: String::new(),
    };
    let mut u = empty_update();
    u.proxy_type = Some("gopher".to_string());
    assert_eq!(merge_update("r", existing, u).proxy_type, ProxyType::Http);
}

#[test]
fn issued_tokens_check_with_their_key_until_they_expire() {
    let token = generate_jwt("admin", "k1", 1_700_000_000, 24).ok().unwrap();
    let c = validate_jwt(&token, "k1", 1_700_000_000 + 10).ok().unwrap();
    assert_eq!(c.sub, "admin");
    assert_eq!(c.iat, 1_700_000_000);
    assert_eq!(c.exp - c.iat, 24 * 3600);
    assert!(validate_jwt(&token, "k1", 1_700_000_000 + 24 * 3600 + 60).is_ok());
    assert_eq!(
        validate_jwt(&token, "k1", 1_700_000_000 + 24 * 3600 + 61).err(),
        Some("Token 无效或已过期".to_string())
    );
    assert_eq!(validate_jwt(&token, "k2", 1_700_000_000).err(), Some("Token 无效或已过期".to_string()));
    assert!(validate_jwt("not.a.token", "k1", 0).is_err());
}
