use rustproxy::config::{default_token_expire_hours, parse_proxy_type, proxy_type_from_name, ProxyRule, ProxyType};
use rustproxy::runtime::ProxyStatus;
use rustproxy::validate::{
    validate_client_id, validate_domain, validate_domains, validate_port, validate_proxy_name,
    validate_proxy_protocol,
};

#[test]
fn proxy_names() {
    assert!(validate_proxy_name("my_proxy-1").is_ok());
    assert!(validate_proxy_name("名字").is_ok());
    assert_eq!(validate_proxy_name("").err(), Some("代理规则名称长度需在 1-64 之间".to_string()));
    assert_eq!(validate_proxy_name(&"a".repeat(65)).err(), Some("代理规则名称长度需在 1-64 之间".to_string()));
    assert!(validate_proxy_name(&"a".repeat(64)).is_ok());
    assert_eq!(validate_proxy_name("a.b").err(), Some("代理规则名称仅允许字母、数字、横线和下划线".to_string()));
}

#[test]
fn ports_and_protocols() {
    assert!(validate_port(1, "local_port").is_ok());
    assert_eq!(validate_port(0, "remote_port").err(), Some("remote_port 不能为 0".to_string()));
    assert!(validate_proxy_protocol("").is_ok());
    assert!(validate_proxy_protocol("v1").is_ok());
    assert!(validate_proxy_protocol("v2").is_ok());
    assert_eq!(validate_proxy_protocol("V1").err(), Some("无效的 proxy_protocol: V1，仅支持空/v1/v2".to_string()));
}

#[test]
fn domains() {
    assert!(validate_domain("sub.example.com").is_ok());
    assert!(validate_domain("under_score.example").is_ok());
    assert_eq!(validate_domain("").err(), Some("无效的域名长度: ".to_string()));
    assert_eq!(validate_domain(".example").err(), Some("域名格式无效: .example".to_string()));
    assert_eq!(validate_domain("a/b").err(), Some("域名包含非法字符: a/b".to_string()));
    let long = "a".repeat(254);
    assert_eq!(validate_domain(&long).err(), Some(format!("无效的域名长度: {}", long)));
    assert!(validate_domains(&vec![]).is_ok());
    assert_eq!(
        validate_domains(&vec!["ok.example".to_string(), "-x".to_string(), "y z".to_string()]).err(),
        Some("域名格式无效: -x".to_string())
    );
}

#[test]
fn client_ids() {
    assert!(validate_client_id("laptop.home").is_ok());
    assert_eq!(validate_client_id("").err(), Some("客户端 ID 长度需在 1-64 之间".to_string()));
    assert_eq!(validate_client_id("a b").err(), Some("客户端 ID 仅允许字母、数字、横线、下划线和点号".to_string()));
}

#[test]
fn proxy_types_and_statuses() {
    assert_eq!(ProxyType::Tcp.as_str(), "tcp");
    assert_eq!(ProxyType::Udp.as_str(), "udp");
    assert_eq!(ProxyType::Http.as_str(), "http");
    assert_eq!(ProxyType::Https.as_str(), "https");
    assert_eq!(parse_proxy_type("https"), ProxyType::Https);
    assert_eq!(parse_proxy_type("weird"), ProxyType::Tcp);
    assert_eq!(proxy_type_from_name("UDP"), None);
    assert_eq!(proxy_type_from_name("udp"), Some(ProxyType::Udp));
    assert_eq!(ProxyStatus::Running.as_str(), "running");
    assert_eq!(ProxyStatus::Error.as_str(), "error");
    assert_eq!(default_token_expire_hours(), 24);
}

#[test]
fn rules_duplicate() {
    let r = ProxyRule {
        name: "n".to_string(),
        proxy_type: ProxyType::Udp,
        client_id: "c".to_string(),
        local_ip: "::1".to_string(),
        local_port: 1,
        remote_port: 2,
        custom_domains: vec!["d".to_string()],
        proxy_protocol: "v1".to_string(),
    };
    let d = r.duplicate();
    assert_eq!(d.name, r.name);
    assert_eq!(d.proxy_type, r.proxy_type);
    assert_eq!(d.custom_domains, r.custom_domains);
    assert_eq!(d.proxy_protocol, r.proxy_protocol);
}

#[test]
fn limits_count_characters_not_bytes() {
    let cjk = "代".repeat(30);
    assert!(validate_proxy_name(&cjk).is_ok());
    assert!(validate_client_id(&cjk).is_ok());
    assert!(validate_proxy_name(&"代".repeat(64)).is_ok());
    assert_eq!(validate_proxy_name(&"代".repeat(65)).err(), Some("代理规则名称长度需在 1-64 之间".to_string()));
    assert_eq!(validate_client_id(&"代".repeat(65)).err(), Some("客户端 ID 长度需在 1-64 之间".to_string()));
}

#[test]
fn hashed_passwords_are_accepted() {
    let h = rustproxy::auth::hash_password("s3cret").ok().unwrap();
    assert!(h.starts_with("$2b$"));
    assert!(rustproxy::auth::verify_password("s3cret", &h));
    assert!(!rustproxy::auth::verify_password("other", &h));
}
