use rustproxy::config::{ProxyRule, ProxyType};
use rustproxy::proxy_manager::ProxyManager;
use rustproxy::runtime::ProxyStatus;

fn rule(name: &str, proxy_type: ProxyType, client_id: &str, local_port: u16, remote_port: u16) -> ProxyRule {
    ProxyRule {
        name: name.to_string(),
        proxy_type,
        client_id: client_id.to_string(),
        local_ip: "127.0.0.1".to_string(),
        local_port,
        remote_port,
        custom_domains: vec![],
        proxy_protocol: String::new(),
    }
}

#[test]
fn test_add_and_get_proxy() {
    let mut mgr = ProxyManager::new().unwrap();
    let r = rule("test-ssh", ProxyType::Tcp, "my-laptop", 22, 6000);
    mgr.add_proxy(r.duplicate()).unwrap();
    let entry = mgr.get_proxy("test-ssh").unwrap();
    assert_eq!(entry.rule.name, "test-ssh");
    assert_eq!(entry.rule.client_id, "my-laptop");
}

#[test]
fn test_list_by_client() {
    let mut mgr = ProxyManager::new().unwrap();
    mgr.add_proxy(rule("ssh", ProxyType::Tcp, "client-a", 22, 6000)).unwrap();
    let mut web = rule("web", ProxyType::Http, "client-b", 80, 0);
    web.custom_domains = vec!["example.com".to_string()];
    mgr.add_proxy(web).unwrap();

    let list_a = mgr.list_proxies_by_client("client-a");
    assert_eq!(list_a.len(), 1);
    assert_eq!(list_a[0].rule.name, "ssh");

    let list_b = mgr.list_proxies_by_client("client-b");
    assert_eq!(list_b.len(), 1);
    assert_eq!(list_b[0].rule.custom_domains, vec!["example.com"]);
}

#[test]
fn test_remove_proxy() {
    let mut mgr = ProxyManager::new().unwrap();
    mgr.add_proxy(rule("test", ProxyType::Tcp, "c1", 22, 6000)).unwrap();
    let removed = mgr.remove_proxy("test").unwrap();
    assert_eq!(removed.name, "test");
    assert!(mgr.get_proxy("test").is_none());
}

#[test]
fn test_duplicate_name() {
    let mut mgr = ProxyManager::new().unwrap();
    mgr.add_proxy(rule("dup", ProxyType::Tcp, "c1", 22, 6000)).unwrap();
    let result = mgr.add_proxy(rule("dup", ProxyType::Udp, "c2", 53, 6001));
    assert!(result.is_err());
}

#[test]
fn test_persistence() {
    let stamp = std::time::SystemTime::now()
        .duration_since(std::time::UNIX_EPOCH)
        .unwrap()
        .as_nanos();
    let db_path = format!("/tmp/rustproxy-persistence-{}.db", stamp);
    {
        let mut mgr = ProxyManager::open(&db_path).unwrap();
        let mut r = rule("persistent-rule", ProxyType::Tcp, "test-client", 8080, 9090);
        r.proxy_protocol = "v1".to_string();
        mgr.add_proxy(r).unwrap();
    }
    {
        let mgr = ProxyManager::open(&db_path).unwrap();
        let proxies = mgr.list_proxies();
        assert_eq!(proxies.len(), 1);
        assert_eq!(proxies[0].rule.name, "persistent-rule");
        assert_eq!(proxies[0].rule.remote_port, 9090);
        assert_eq!(proxies[0].rule.proxy_protocol, "v1");
    }
}

#[test]
fn duplicate_message_names_the_rule() {
    let mut mgr = ProxyManager::new().unwrap();
    mgr.add_proxy(rule("dup", ProxyType::Tcp, "c1", 22, 6000)).unwrap();
    let err = mgr.add_proxy(rule("dup", ProxyType::Tcp, "c1", 22, 6000)).unwrap_err();
    assert_eq!(err, "代理规则名称已存在: dup");
}

#[test]
fn remove_missing_rule_fails() {
    let mut mgr = ProxyManager::new().unwrap();
    match mgr.remove_proxy("nothing") {
        Ok(_) => panic!("a missing rule was removed"),
        Err(err) => assert!(err.starts_with("代理规则不存在: ")),
    }
}

#[test]
fn new_rule_is_stopped_and_idle() {
    let mut mgr = ProxyManager::new().unwrap();
    mgr.add_proxy(rule("r", ProxyType::Udp, "c", 53, 5353)).unwrap();
    let e = mgr.get_proxy("r").unwrap();
    assert_eq!(e.status, ProxyStatus::Stopped);
    assert_eq!(e.connections, 0);
    assert_eq!(e.window_nanos, 0);
    assert_eq!(e.rule.proxy_type, ProxyType::Udp);
}

#[test]
fn connections_count_up_and_down_but_not_below_zero() {
    let mut mgr = ProxyManager::new().unwrap();
    mgr.add_proxy(rule("r", ProxyType::Tcp, "c", 22, 6000)).unwrap();
    mgr.inc_connections("r");
    mgr.inc_connections("r");
    assert_eq!(mgr.get_proxy("r").unwrap().connections, 2);
    mgr.dec_connections("r");
    assert_eq!(mgr.get_proxy("r").unwrap().connections, 1);
    mgr.dec_connections("r");
    mgr.dec_connections("r");
    assert_eq!(mgr.get_proxy("r").unwrap().connections, 0);
}

#[test]
fn status_is_updated() {
    let mut mgr = ProxyManager::new().unwrap();
    mgr.add_proxy(rule("r", ProxyType::Tcp, "c", 22, 6000)).unwrap();
    mgr.update_status("r", ProxyStatus::Running);
    assert_eq!(mgr.get_proxy("r").unwrap().status, ProxyStatus::Running);
    mgr.update_status("unknown", ProxyStatus::Error);
    assert!(mgr.get_proxy("unknown").is_none());
}

#[test]
fn bandwidth_window_measures_traffic_between_samples() {
    let mut mgr = ProxyManager::new().unwrap();
    mgr.add_proxy(rule("r", ProxyType::Tcp, "c", 22, 6000)).unwrap();
    mgr.update_bandwidth(1_000_000_000);
    mgr.add_traffic("r", 4000, 1000);
    mgr.update_bandwidth(3_000_000_000);
    let e = mgr.get_proxy("r").unwrap();
    assert_eq!(e.window_bytes_in, 4000);
    assert_eq!(e.window_bytes_out, 1000);
    assert_eq!(e.window_nanos, 2_000_000_000);
    mgr.update_bandwidth(3_000_000_000);
    let e = mgr.get_proxy("r").unwrap();
    assert_eq!(e.window_nanos, 2_000_000_000);
}

#[test]
fn first_sample_measures_nothing() {
    let mut mgr = ProxyManager::new().unwrap();
    mgr.add_proxy(rule("r", ProxyType::Tcp, "c", 22, 6000)).unwrap();
    mgr.add_traffic("r", 10, 20);
    mgr.update_bandwidth(5);
    let e = mgr.get_proxy("r").unwrap();
    assert_eq!(e.window_nanos, 0);
    assert_eq!(e.window_bytes_in, 0);
}

#[test]
fn update_replaces_stored_fields() {
    let mut mgr = ProxyManager::new().unwrap();
    mgr.add_proxy(rule("r", ProxyType::Tcp, "c", 22, 6000)).unwrap();
    let mut changed = rule("r", ProxyType::Udp, "c2", 53, 6001);
    changed.custom_domains = vec!["a.example".to_string(), "b.example".to_string()];
    mgr.update_proxy("r", changed).unwrap();
    let e = mgr.get_proxy("r").unwrap();
    assert_eq!(e.rule.proxy_type, ProxyType::Udp);
    assert_eq!(e.rule.client_id, "c2");
    assert_eq!(e.rule.remote_port, 6001);
    assert_eq!(e.rule.custom_domains, vec!["a.example", "b.example"]);
}

#[test]
fn update_of_missing_rule_is_refused() {
    let mut mgr = ProxyManager::new().unwrap();
    let err = mgr.update_proxy("ghost", rule("ghost", ProxyType::Tcp, "c", 1, 2)).unwrap_err();
    assert_eq!(err, "代理规则不存在: ghost");
}

#[test]
fn client_ids_are_listed_once() {
    let mut mgr = ProxyManager::new().unwrap();
    mgr.add_proxy(rule("a", ProxyType::Tcp, "c1", 22, 6000)).unwrap();
    mgr.add_proxy(rule("b", ProxyType::Tcp, "c1", 23, 6001)).unwrap();
    mgr.add_proxy(rule("c", ProxyType::Tcp, "c2", 24, 6002)).unwrap();
    let mut ids = mgr.list_client_ids();
    ids.sort();
    assert_eq!(ids, vec!["c1", "c2"]);
}

#[test]
fn load_from_db_gives_state_to_stored_rules() {
    let stamp = std::time::SystemTime::now()
        .duration_since(std::time::UNIX_EPOCH)
        .unwrap()
        .as_nanos();
    let db_path = format!("/tmp/rustproxy-load-{}.db", stamp);
    {
        let mut mgr = ProxyManager::open(&db_path).unwrap();
        mgr.add_proxy(rule("kept", ProxyType::Tcp, "c", 22, 6000)).unwrap();
    }
    let mut mgr = ProxyManager::open(&db_path).unwrap();
    assert_eq!(mgr.load_from_db(), 1);
    mgr.inc_connections("kept");
    assert_eq!(mgr.get_proxy("kept").unwrap().connections, 1);
}

fn columns(name: &str, proxy_type: &str, client_id: &str, domains: &str) -> (String, String, String, String, u16, u16, String, String) {
    (
        name.to_string(),
        proxy_type.to_string(),
        client_id.to_string(),
        "10.0.0.1".to_string(),
        80,
        8080,
        domains.to_string(),
        "v1".to_string(),
    )
}

#[test]
fn update_reply_follows_the_statement_outcome() {
    assert_eq!(ProxyManager::update_reply("r", Ok(1)), Ok(()));
    assert_eq!(ProxyManager::update_reply("r", Ok(0)), Err("代理规则不存在: r".to_string()));
    assert_eq!(
        ProxyManager::update_reply("r", Err("disk I/O error".to_string())),
        Err("数据库更新失败: disk I/O error".to_string())
    );
}

#[test]
fn schema_failure_is_reported() {
    let db = rusqlite::Connection::open_in_memory().unwrap();
    let err = ProxyManager::with_schema(db, Err("boom".to_string())).err().unwrap();
    assert_eq!(err, "初始化数据库表失败: boom");
    let db = rusqlite::Connection::open_in_memory().unwrap();
    let mgr = ProxyManager::with_schema(db, Ok(())).ok().unwrap();
    assert!(mgr.runtime_state("x").is_none());
}

#[test]
fn a_found_row_becomes_an_entry() {
    let mgr = ProxyManager::from_connection(rusqlite::Connection::open_in_memory().unwrap());
    let e = mgr.entry_from_found(Ok(columns("web", "http", "c9", "[\"a.example\"]"))).unwrap();
    assert_eq!(e.rule.name, "web");
    assert_eq!(e.rule.proxy_type, ProxyType::Http);
    assert_eq!(e.rule.client_id, "c9");
    assert_eq!(e.rule.custom_domains, vec!["a.example".to_string()]);
    assert_eq!(e.rule.proxy_protocol, "v1");
    assert_eq!(e.status, ProxyStatus::Stopped);
    assert!(mgr.entry_from_found(Err(rustproxy::db::ReadError::Row("Query returned no rows".to_string()))).is_none());
}

#[test]
fn unreadable_rows_are_skipped_and_bad_json_means_no_domains() {
    let mgr = ProxyManager::from_connection(rusqlite::Connection::open_in_memory().unwrap());
    let out = mgr.entries_from_query(Ok(vec![
        Ok(columns("a", "tcp", "c", "not json")),
        Err("Invalid column type".to_string()),
        Ok(columns("b", "mystery", "c", "[]")),
    ]));
    assert_eq!(out.len(), 2);
    assert_eq!(out[0].rule.name, "a");
    assert!(out[0].rule.custom_domains.is_empty());
    assert_eq!(out[1].rule.name, "b");
    assert_eq!(out[1].rule.proxy_type, ProxyType::Tcp);
    assert!(mgr.entries_from_query(Err("no such table".to_string())).is_empty());
}

#[test]
fn loading_rows_keeps_existing_state() {
    let mut mgr = ProxyManager::new().unwrap();
    mgr.add_proxy(rule("a", ProxyType::Tcp, "c", 22, 6000)).unwrap();
    mgr.inc_connections("a");
    let rows = vec![
        rustproxy::db::RuleRow::from_columns(columns("a", "tcp", "c", "[]")),
        rustproxy::db::RuleRow::from_columns(columns("b", "tcp", "c", "[]")),
        rustproxy::db::RuleRow::from_columns(columns("b", "tcp", "c", "[]")),
    ];
    assert_eq!(mgr.load_rows(rows), 3);
    assert_eq!(mgr.runtime_state("a").unwrap().connections, 1);
    assert_eq!(mgr.runtime_state("b").unwrap().connections, 0);
}

#[test]
fn read_errors_name_a_failed_statement() {
    assert_eq!(
        rustproxy::db::read_error_text(rustproxy::db::ReadError::Prepare("no such table".to_string())),
        "数据库查询失败: no such table"
    );
    assert_eq!(rustproxy::db::read_error_text(rustproxy::db::ReadError::Row("x".to_string())), "x");
}

#[test]
fn removing_a_missing_rule_names_the_query_error() {
    let mut mgr = ProxyManager::new().unwrap();
    assert_eq!(mgr.remove_proxy("nope").err(), Some("代理规则不存在: Query returned no rows".to_string()));
}
