use rustproxy::auth::{authenticate, constant_time_eq, constant_time_token_eq, validate_client_id, verify_password};
use rustproxy::config::{ProxyRule, ProxyType};
use rustproxy::proto::message::{AuthRequest, ControlMessage, Message, NewWorkConnResponse};
use rustproxy::proxy_manager::ProxyManager;
use rustproxy::session::{
    session_assignments, session_step, tunnel_dispatch, ClientSessionManager, SessionAction,
    SessionEvent, TunnelDispatch, HEARTBEAT_TIMEOUT_NANOS,
};

fn auth_req(id: &str, token: &str) -> AuthRequest {
    AuthRequest { client_id: id.to_string(), token: token.to_string(), version: "0.1.4".to_string() }
}

#[test]
fn authentication_answers() {
    let ok = authenticate(&auth_req("laptop", "tok"), "tok", "1.2.3");
    assert!(ok.success);
    assert_eq!(ok.message, "认证成功");
    assert_eq!(ok.server_version, "1.2.3");

    let bad_token = authenticate(&auth_req("laptop", "nope"), "tok", "1.2.3");
    assert!(!bad_token.success);
    assert_eq!(bad_token.message, "Token 验证失败");
    assert_eq!(bad_token.server_version, "");

    let bad_id = authenticate(&auth_req("bad id!", "tok"), "tok", "1.2.3");
    assert!(!bad_id.success);
    assert_eq!(bad_id.message, "客户端 ID 格式无效");
    assert_eq!(bad_id.server_version, "");
}

#[test]
fn client_id_format() {
    assert!(validate_client_id("host-1.lan_a"));
    assert!(!validate_client_id(""));
    assert!(!validate_client_id(&"x".repeat(65)));
    assert!(validate_client_id(&"x".repeat(64)));
    assert!(!validate_client_id("a/b"));
}

#[test]
fn constant_time_comparisons() {
    assert!(constant_time_eq(b"abc", b"abc"));
    assert!(!constant_time_eq(b"abc", b"abd"));
    assert!(!constant_time_eq(b"abc", b"ab"));
    assert!(constant_time_eq(b"", b""));
    assert!(constant_time_token_eq("secret", "secret"));
    assert!(!constant_time_token_eq("secret", "Secret"));
}

#[test]
fn passwords_in_clear_and_bcrypt() {
    assert!(verify_password("admin", "admin"));
    assert!(!verify_password("admin", "admin2"));
    let hash = bcrypt::hash("s3cret", 4).unwrap();
    assert!(hash.starts_with("$2b$"));
    assert!(verify_password("s3cret", &hash));
    assert!(!verify_password("other", &hash));
    assert!(!verify_password("x", "$2b$not-a-hash"));
}

#[test]
fn sessions_are_registered_and_replaced() {
    let mut m: ClientSessionManager<u32> = ClientSessionManager::new();
    assert_eq!(m.register("a", 1), None);
    assert_eq!(m.register("b", 2), None);
    assert_eq!(m.register("a", 3), Some(1));
    assert_eq!(m.send_to("a"), Some(&3));
    assert!(m.is_online("b"));
    let mut ids = m.connected_clients();
    ids.sort();
    assert_eq!(ids, vec!["a", "b"]);
    assert_eq!(m.unregister("b"), Some(2));
    assert!(!m.is_online("b"));
    assert_eq!(m.send_to("b"), None);
    assert_eq!(m.unregister("b"), None);
}

#[test]
fn ping_is_answered_and_renews_heartbeat() {
    let (last, action) = session_step(
        5,
        SessionEvent::Received { message: Message::Control(ControlMessage::Ping), now: 100 },
    );
    assert_eq!(last, 100);
    assert!(matches!(action, SessionAction::SendPong));
}

#[test]
fn repeated_auth_is_ignored() {
    let (last, action) = session_step(
        5,
        SessionEvent::Received { message: Message::Control(ControlMessage::Auth(auth_req("a", "b"))), now: 100 },
    );
    assert_eq!(last, 5);
    assert!(matches!(action, SessionAction::Continue));
}

#[test]
fn heartbeat_timeout() {
    let (_, a) = session_step(0, SessionEvent::Tick { now: HEARTBEAT_TIMEOUT_NANOS });
    assert!(matches!(a, SessionAction::Continue));
    let (_, a) = session_step(0, SessionEvent::Tick { now: HEARTBEAT_TIMEOUT_NANOS + 1 });
    assert!(matches!(a, SessionAction::Disconnect));
    assert_eq!(HEARTBEAT_TIMEOUT_NANOS, 90 * 1_000_000_000);
}

#[test]
fn failures_end_the_session() {
    for e in [SessionEvent::ReadError, SessionEvent::Closed, SessionEvent::OutboundClosed, SessionEvent::SendFailed] {
        let (_, a) = session_step(0, e);
        assert!(matches!(a, SessionAction::Disconnect));
    }
    let (_, a) = session_step(0, SessionEvent::Outbound(Message::Control(ControlMessage::Pong)));
    assert!(matches!(a, SessionAction::Send(Message::Control(ControlMessage::Pong))));
}

#[test]
fn first_message_sorts_tunnel_connections() {
    assert!(matches!(
        tunnel_dispatch(Message::Control(ControlMessage::Auth(auth_req("a", "t")))),
        TunnelDispatch::Session(_)
    ));
    match tunnel_dispatch(Message::Control(ControlMessage::NewWorkConnResp(NewWorkConnResponse {
        proxy_name: "p".to_string(),
        conn_id: 7,
        success: true,
    }))) {
        TunnelDispatch::WorkConn(r) => assert_eq!(r.conn_id, 7),
        _ => panic!("expected a work connection"),
    }
    assert!(matches!(tunnel_dispatch(Message::Control(ControlMessage::Ping)), TunnelDispatch::Reject));
}

#[test]
fn new_session_gets_its_rules() {
    let mut pm = ProxyManager::new().unwrap();
    pm.add_proxy(ProxyRule {
        name: "ssh".to_string(),
        proxy_type: ProxyType::Tcp,
        client_id: "c".to_string(),
        local_ip: "127.0.0.1".to_string(),
        local_port: 22,
        remote_port: 6000,
        custom_domains: vec![],
        proxy_protocol: String::new(),
    })
    .unwrap();
    let entries = pm.list_proxies_by_client("c");
    let assigned = session_assignments(&entries);
    assert_eq!(assigned.len(), 1);
    assert_eq!(assigned[0].name, "ssh");
    assert_eq!(assigned[0].proxy_type, "tcp");
    assert_eq!(assigned[0].remote_port, 6000);
}

#[test]
fn default_manager_is_empty() {
    let m: ClientSessionManager<u8> = ClientSessionManager::default();
    assert!(m.connected_clients().is_empty());
    let w = rustproxy::client::ProxyWorkerManager::default();
    assert_eq!(w.get_local_addr("any"), None);
}
