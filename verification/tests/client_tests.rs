use rustproxy::client::{
    auth_reply, auth_request, check_auth, client_step, format_host_port, local_transport,
    proxy_protocol_to_inject, server_name_for, server_trust, work_conn_response, AuthWait,
    ClientAction, ClientEvent, LocalTransport, ProxyWorkerManager, ServerTrust,
};
use rustproxy::config::{ClientConfig, ClientSection};
use rustproxy::proto::message::{
    AuthResponse, ControlMessage, Message, NewWorkConnRequest, ServerAssignProxyRequest,
    ServerCloseProxyRequest,
};

fn config() -> ClientConfig {
    ClientConfig {
        client: ClientSection {
            id: "laptop".to_string(),
            server_addr: "1.2.3.4".to_string(),
            server_port: 7000,
            token: "tok".to_string(),
            ca_cert: String::new(),
            server_name: String::new(),
        },
    }
}

fn assign(name: &str) -> ServerAssignProxyRequest {
    ServerAssignProxyRequest {
        name: name.to_string(),
        proxy_type: "udp".to_string(),
        local_ip: "192.168.1.5".to_string(),
        local_port: 53,
        remote_port: 5353,
        custom_domains: vec![],
        proxy_protocol: "v2".to_string(),
    }
}

#[test]
fn auth_request_from_config() {
    let r = auth_request(&config(), "0.1.4");
    assert_eq!(r.client_id, "laptop");
    assert_eq!(r.token, "tok");
    assert_eq!(r.version, "0.1.4");
}

#[test]
fn waiting_for_the_auth_answer() {
    let resp = AuthResponse { success: true, message: "认证成功".to_string(), server_version: "9".to_string() };
    match auth_reply(AuthWait::Received(Message::Control(ControlMessage::AuthResp(resp)))) {
        Ok(r) => assert_eq!(r.server_version, "9"),
        Err(e) => panic!("{}", e),
    }
    assert_eq!(auth_reply(AuthWait::Received(Message::Control(ControlMessage::Pong))).err(), Some("期望认证响应，收到其他消息".to_string()));
    assert_eq!(auth_reply(AuthWait::DecodeError("bad json".to_string())).err(), Some("认证响应解析错误: bad json".to_string()));
    assert_eq!(auth_reply(AuthWait::Closed).err(), Some("服务端在认证前关闭连接".to_string()));
    assert_eq!(auth_reply(AuthWait::TimedOut).err(), Some("认证超时".to_string()));
}

#[test]
fn refused_auth_is_an_error() {
    let resp = AuthResponse { success: false, message: "Token 验证失败".to_string(), server_version: String::new() };
    assert_eq!(check_auth(resp).err(), Some("认证失败: Token 验证失败".to_string()));
    let ok = AuthResponse { success: true, message: "认证成功".to_string(), server_version: "1".to_string() };
    assert!(check_auth(ok).is_ok());
}

#[test]
fn control_loop_actions() {
    match client_step(ClientEvent::Received(Message::Control(ControlMessage::ServerAssignProxy(assign("dns"))))) {
        ClientAction::StartProxy(r) => assert_eq!(r.name, "dns"),
        _ => panic!("expected start"),
    }
    match client_step(ClientEvent::Received(Message::Control(ControlMessage::ServerCloseProxy(ServerCloseProxyRequest { name: "dns".to_string() })))) {
        ClientAction::StopProxy(n) => assert_eq!(n, "dns"),
        _ => panic!("expected stop"),
    }
    match client_step(ClientEvent::Received(Message::Control(ControlMessage::NewWorkConn(NewWorkConnRequest { proxy_name: "dns".to_string(), conn_id: 11 })))) {
        ClientAction::OpenWorkConn { proxy_name, conn_id } => {
            assert_eq!(proxy_name, "dns");
            assert_eq!(conn_id, 11);
        }
        _ => panic!("expected a work connection"),
    }
    assert!(matches!(client_step(ClientEvent::Received(Message::Control(ControlMessage::Pong))), ClientAction::Continue));
    assert!(matches!(client_step(ClientEvent::PingTick), ClientAction::SendPing));
    assert!(matches!(client_step(ClientEvent::ReadError), ClientAction::Disconnect));
    assert!(matches!(client_step(ClientEvent::Closed), ClientAction::Disconnect));
    assert!(matches!(client_step(ClientEvent::SendFailed), ClientAction::Disconnect));
}

#[test]
fn worker_manager_tracks_rules() {
    let cfg = config();
    let mut m = ProxyWorkerManager::new();
    assert!(m.start_proxy(assign("dns"), &cfg).is_ok());
    assert_eq!(m.get_local_addr("dns"), Some("192.168.1.5:53".to_string()));
    assert_eq!(m.get_proxy_type("dns"), Some("udp".to_string()));
    assert_eq!(m.get_proxy_protocol("dns"), Some("v2".to_string()));
    let mut other = assign("web");
    other.local_port = 8080;
    other.proxy_type = "http".to_string();
    assert!(m.start_proxy(other, &cfg).is_ok());
    m.stop_proxy("dns");
    assert_eq!(m.get_local_addr("dns"), None);
    assert_eq!(m.get_local_addr("web"), Some("192.168.1.5:8080".to_string()));
    m.stop_all();
    assert_eq!(m.get_proxy_type("web"), None);
}

#[test]
fn helpers() {
    assert_eq!(format_host_port("10.0.0.1", 0), "10.0.0.1:0");
    assert_eq!(format_host_port("::1", 65535), "::1:65535");
    assert_eq!(server_name_for("", "1.2.3.4"), "1.2.3.4");
    assert_eq!(server_name_for("proxy.example", "1.2.3.4"), "proxy.example");
    let r = work_conn_response("p", 99);
    assert_eq!(r.proxy_name, "p");
    assert_eq!(r.conn_id, 99);
    assert!(r.success);
    assert!(matches!(local_transport("udp"), LocalTransport::Udp));
    assert!(matches!(local_transport("https"), LocalTransport::Tcp));
    assert_eq!(proxy_protocol_to_inject(&None), None);
    assert_eq!(proxy_protocol_to_inject(&Some(String::new())), None);
    assert_eq!(proxy_protocol_to_inject(&Some("v1".to_string())), Some("v1"));
    assert!(matches!(server_trust(""), ServerTrust::AnyCertificate(_)));
    match server_trust("/etc/ca.pem") {
        ServerTrust::CaFile(p) => assert_eq!(p, "/etc/ca.pem"),
        _ => panic!("expected a CA file"),
    }
}

#[test]
fn outbound_messages_are_sent_and_a_closed_queue_ends_the_loop() {
    match client_step(ClientEvent::Outbound(Message::Control(ControlMessage::Ping))) {
        ClientAction::Send(Message::Control(ControlMessage::Ping)) => {}
        _ => panic!("expected the message to be sent"),
    }
    assert!(matches!(client_step(ClientEvent::OutboundClosed), ClientAction::Disconnect));
    assert!(matches!(
        client_step(ClientEvent::Received(Message::Data(rustproxy::proto::message::DataMessage {
            conn_id: 1,
            data: bytes::Bytes::from_static(b"x"),
        }))),
        ClientAction::Continue
    ));
}
