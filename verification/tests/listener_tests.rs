use rustproxy::config::{ProxyRule, ProxyType};
use rustproxy::listener::{ConnIdCounter, ProxyListenerManager, UdpPacketRoute, UdpSessions, WorkConnFailure};

fn web_rule(name: &str, domains: &[&str]) -> ProxyRule {
    ProxyRule {
        name: name.to_string(),
        proxy_type: ProxyType::Http,
        client_id: "client-b".to_string(),
        local_ip: "127.0.0.1".to_string(),
        local_port: 80,
        remote_port: 0,
        custom_domains: domains.iter().map(|d| d.to_string()).collect(),
        proxy_protocol: String::new(),
    }
}

fn client_hello(name: &str) -> Vec<u8> {
    let mut data = vec![0x16u8, 0x03, 0x01, 0x00, 0x00, 0x01, 0x00, 0x00, 0x00, 0x03, 0x03];
    data.extend_from_slice(&[0u8; 32]);
    data.push(0x00);
    data.extend_from_slice(&[0x00, 0x02, 0x13, 0x01, 0x01, 0x00]);
    let n = name.len() as u16;
    data.extend_from_slice(&(n + 9).to_be_bytes());
    data.extend_from_slice(&[0x00, 0x00]);
    data.extend_from_slice(&(n + 5).to_be_bytes());
    data.extend_from_slice(&(n + 3).to_be_bytes());
    data.push(0x00);
    data.extend_from_slice(&n.to_be_bytes());
    data.extend_from_slice(name.as_bytes());
    data
}

#[test]
fn conn_ids_count_up_from_one() {
    let mut c = ConnIdCounter::new();
    assert_eq!(c.allocate(), 1);
    assert_eq!(c.allocate(), 2);
    assert_eq!(c.allocate(), 3);
}

#[test]
fn domain_routes_register_and_unregister() {
    let mut m: ProxyListenerManager<u8, u8> = ProxyListenerManager::new();
    m.register_domain_route(&web_rule("web", &["a.example", "b.example"]));
    assert_eq!(m.route_for("a.example").map(|r| r.name), Some("web".to_string()));
    assert_eq!(m.route_for("b.example").map(|r| r.name), Some("web".to_string()));
    assert!(m.route_for("c.example").is_none());
    m.register_domain_route(&web_rule("other", &["b.example"]));
    assert_eq!(m.route_for("b.example").map(|r| r.name), Some("other".to_string()));
    m.unregister_domain_route(&web_rule("web", &["a.example", "b.example"]));
    assert!(m.route_for("a.example").is_none());
    assert!(m.route_for("b.example").is_none());
}

#[test]
fn http_requests_find_their_rule() {
    let mut m: ProxyListenerManager<u8, u8> = ProxyListenerManager::new();
    m.register_domain_route(&web_rule("web", &["example.com"]));
    let req = b"GET / HTTP/1.1\r\nHost: example.com:8080\r\n\r\n";
    assert_eq!(m.route_http(req).map(|r| r.name), Ok("web".to_string()));
    let req = b"GET / HTTP/1.1\r\nHost: other.com\r\n\r\n";
    assert_eq!(m.route_http(req).map(|r| r.name), Err("未找到域名 other.com 的代理规则".to_string()));
    let req = b"GET / HTTP/1.1\r\n\r\n";
    assert_eq!(m.route_http(req).map(|r| r.name), Err("无法解析 HTTP Host 头".to_string()));
}

#[test]
fn tls_connections_find_their_rule() {
    let mut m: ProxyListenerManager<u8, u8> = ProxyListenerManager::new();
    m.register_domain_route(&web_rule("secure", &["s.example"]));
    assert_eq!(m.route_https(&client_hello("s.example")).map(|r| r.name), Some("secure".to_string()));
    assert!(m.route_https(&client_hello("t.example")).is_none());
    assert!(m.route_https(&[0u8; 10]).is_none());
}

#[test]
fn listeners_are_recorded_and_stopped() {
    let mut m: ProxyListenerManager<u32, u8> = ProxyListenerManager::new();
    assert_eq!(m.add_listener("ssh", 1), None);
    assert_eq!(m.add_listener("ssh", 2), Some(1));
    assert_eq!(m.add_listener("dns", 3), None);
    assert_eq!(m.set_http_listener(10), None);
    assert_eq!(m.set_https_listener(11), None);
    assert_eq!(m.stop_listener("dns"), Some(3));
    assert_eq!(m.stop_listener("dns"), None);
    let mut all = m.stop_all();
    all.sort();
    assert_eq!(all, vec![2, 10, 11]);
    assert!(m.stop_all().is_empty());
}

#[test]
fn work_connections_meet_waiting_users() {
    let mut m: ProxyListenerManager<u8, &'static str> = ProxyListenerManager::new();
    let req = m.open_user_conn("ssh", "waiter-1");
    assert_eq!(req.proxy_name, "ssh");
    assert_eq!(req.conn_id, 1);
    let req2 = m.open_user_conn("ssh", "waiter-2");
    assert_eq!(req2.conn_id, 2);
    assert_eq!(m.register_work_conn(1), Some("waiter-1"));
    assert_eq!(m.register_work_conn(1), None);
    assert_eq!(m.work_conn_failed(2, "laptop", WorkConnFailure::ClientOffline), "客户端 laptop 不在线，无法建立工作连接");
    assert_eq!(m.register_work_conn(2), None);
    assert_eq!(m.allocate_conn_id(), 3);
    m.add_pending(3, "udp");
    assert_eq!(m.work_conn_failed(3, "x", WorkConnFailure::TimedOut), "等待工作连接超时");
    assert_eq!(m.work_conn_failed(4, "x", WorkConnFailure::ChannelClosed), "工作连接通道关闭");
}

#[test]
fn udp_sessions() {
    let mut s: UdpSessions<u8> = UdpSessions::new();
    assert!(matches!(s.route("1.2.3.4:5000"), UdpPacketRoute::NewSession));
    s.start("1.2.3.4:5000", 7);
    assert!(matches!(s.route("1.2.3.4:5000"), UdpPacketRoute::Drop));
    s.attach(7, 42);
    assert!(matches!(s.route("1.2.3.4:5000"), UdpPacketRoute::Forward(7)));
    assert_eq!(s.sender(7), Some(&42));
    s.end("1.2.3.4:5000", 7);
    assert!(matches!(s.route("1.2.3.4:5000"), UdpPacketRoute::NewSession));
    assert_eq!(s.sender(7), None);
}

#[test]
fn unsent_notice_ends_the_udp_session() {
    let mut s: UdpSessions<u8> = UdpSessions::new();
    s.start("1.2.3.4:5", 7);
    assert!(s.notice_outcome("1.2.3.4:5", 7, true));
    assert!(matches!(s.route("1.2.3.4:5"), UdpPacketRoute::Drop));
    assert!(!s.notice_outcome("1.2.3.4:5", 7, false));
    assert!(matches!(s.route("1.2.3.4:5"), UdpPacketRoute::NewSession));
}
