use tcp_proxy::config::pick_backend;
use tcp_proxy::config::Addr;
use tcp_proxy::config::ServerConfiguration;
use tcp_proxy::messages::Command;
use tcp_proxy::messages::Instance;
use tcp_proxy::messages::ServerMessage;
use tcp_proxy::messages::TcpFront;
use tcp_proxy::messages::TcpProxyOrder;

fn addr(ip: &str, port: u16) -> Addr {
    Addr { ip: ip.to_string(), port }
}

fn add_front(cfg: &mut ServerConfiguration, app: &str, port: u16) -> Option<usize> {
    cfg.add_tcp_front(port, app, true)
}

#[test]
fn add_front_assigns_tokens_in_order() {
    let mut cfg = ServerConfiguration::new(10);
    assert_eq!(add_front(&mut cfg, "a", 1000), Some(0));
    assert_eq!(add_front(&mut cfg, "b", 1001), Some(1));
}

#[test]
fn add_front_rejects_failed_bind() {
    let mut cfg = ServerConfiguration::new(10);
    assert_eq!(cfg.add_tcp_front(1000, "a", false), None);
}

#[test]
fn add_front_rejects_second_front_for_app() {
    let mut cfg = ServerConfiguration::new(10);
    assert_eq!(add_front(&mut cfg, "a", 1000), Some(0));
    assert_eq!(add_front(&mut cfg, "a", 1001), None);
}

#[test]
fn add_front_rejects_when_slab_full() {
    let mut cfg = ServerConfiguration::new(1);
    assert_eq!(add_front(&mut cfg, "a", 1000), Some(0));
    assert_eq!(add_front(&mut cfg, "b", 1001), None);
}

#[test]
fn remove_front_is_idempotent() {
    let mut cfg = ServerConfiguration::new(10);
    add_front(&mut cfg, "a", 1000);
    assert_eq!(cfg.remove_tcp_front("a".to_string()), Some(0));
    assert_eq!(cfg.remove_tcp_front("a".to_string()), None);
    assert_eq!(cfg.remove_tcp_front("a".to_string()), None);
}

#[test]
fn removed_token_can_be_reused_by_next_front() {
    let mut cfg = ServerConfiguration::new(10);
    add_front(&mut cfg, "a", 1000);
    add_front(&mut cfg, "b", 1001);
    cfg.remove_tcp_front("a".to_string());
    assert_eq!(add_front(&mut cfg, "c", 1002), Some(0));
}

#[test]
fn add_instance_without_front_records_pool() {
    let mut cfg = ServerConfiguration::new(10);
    let a = addr("127.0.0.1", 5678);
    assert_eq!(cfg.add_instance("x", &a), None);
    let t = add_front(&mut cfg, "x", 9000).unwrap();
    let c = tcp_proxy::client::Client::new(t);
    let picked = cfg.connect_to_backend(&c).unwrap();
    assert_eq!(picked.ip, "127.0.0.1");
    assert_eq!(picked.port, 5678);
}

#[test]
fn add_instance_with_front_extends_listener_pool() {
    let mut cfg = ServerConfiguration::new(10);
    let t = add_front(&mut cfg, "x", 9000).unwrap();
    let a = addr("127.0.0.1", 5678);
    assert_eq!(cfg.add_instance("x", &a), Some(t));
    let c = tcp_proxy::client::Client::new(t);
    let picked = cfg.connect_to_backend(&c).unwrap();
    assert_eq!(picked.ip, "127.0.0.1");
    assert_eq!(picked.port, 5678);
}

#[test]
fn connect_fails_on_empty_pool() {
    let mut cfg = ServerConfiguration::new(10);
    let t = add_front(&mut cfg, "x", 9000).unwrap();
    let c = tcp_proxy::client::Client::new(t);
    assert!(cfg.connect_to_backend(&c).is_none());
}

#[test]
fn connect_fails_on_gone_listener() {
    let mut cfg = ServerConfiguration::new(10);
    let t = add_front(&mut cfg, "x", 9000).unwrap();
    cfg.add_instance("x", &addr("127.0.0.1", 5678));
    cfg.remove_tcp_front("x".to_string());
    let c = tcp_proxy::client::Client::new(t);
    assert!(cfg.connect_to_backend(&c).is_none());
}

#[test]
fn remove_instance_drops_first_match_only() {
    let mut cfg = ServerConfiguration::new(10);
    let t = add_front(&mut cfg, "x", 9000).unwrap();
    cfg.add_instance("x", &addr("10.0.0.1", 1));
    cfg.add_instance("x", &addr("10.0.0.2", 2));
    cfg.add_instance("x", &addr("10.0.0.1", 1));
    assert_eq!(cfg.remove_instance("x", &addr("10.0.0.1", 1)), Some(t));
    let l = cfg.listeners.get(t).unwrap();
    assert_eq!(l.back_addresses.len(), 2);
    assert_eq!(l.back_addresses[0].ip, "10.0.0.2");
    assert_eq!(l.back_addresses[1].ip, "10.0.0.1");
}

#[test]
fn remove_instance_without_front() {
    let mut cfg = ServerConfiguration::new(10);
    cfg.add_instance("x", &addr("10.0.0.1", 1));
    assert_eq!(cfg.remove_instance("x", &addr("10.0.0.1", 1)), None);
}

#[test]
fn pick_backend_exact_index() {
    let pool = vec![addr("a", 1), addr("b", 2), addr("c", 3)];
    let picked = pick_backend(&pool, 5).unwrap();
    assert_eq!(picked.ip, "c");
    assert_eq!(picked.port, 3);
    let empty: Vec<Addr> = Vec::new();
    assert!(pick_backend(&empty, 5).is_none());
}

#[test]
fn notify_replies_once_per_applied_command() {
    let mut cfg = ServerConfiguration::new(10);
    let r = cfg.notify(
        TcpProxyOrder::Command(Command::AddTcpFront(TcpFront {
            app_id: "yolo".to_string(),
            port: 1234,
        })),
        true,
    );
    assert_eq!(r.reply, Some(ServerMessage::AddedFront));
    assert!(!r.stop);
    let r = cfg.notify(
        TcpProxyOrder::Command(Command::AddInstance(Instance {
            app_id: "yolo".to_string(),
            ip_address: "127.0.0.1".to_string(),
            port: 5678,
        })),
        false,
    );
    assert_eq!(r.reply, Some(ServerMessage::AddedInstance));
    let r = cfg.notify(
        TcpProxyOrder::Command(Command::RemoveInstance(Instance {
            app_id: "yolo".to_string(),
            ip_address: "127.0.0.1".to_string(),
            port: 5678,
        })),
        false,
    );
    assert_eq!(r.reply, Some(ServerMessage::RemovedInstance));
    let r = cfg.notify(
        TcpProxyOrder::Command(Command::RemoveTcpFront(TcpFront {
            app_id: "yolo".to_string(),
            port: 1234,
        })),
        false,
    );
    assert_eq!(r.reply, Some(ServerMessage::RemovedFront));
    let r = cfg.notify(
        TcpProxyOrder::Command(Command::RemoveTcpFront(TcpFront {
            app_id: "yolo".to_string(),
            port: 1234,
        })),
        false,
    );
    assert_eq!(r.reply, None);
}

#[test]
fn notify_no_reply_on_failed_bind() {
    let mut cfg = ServerConfiguration::new(10);
    let r = cfg.notify(
        TcpProxyOrder::Command(Command::AddTcpFront(TcpFront {
            app_id: "yolo".to_string(),
            port: 1234,
        })),
        false,
    );
    assert_eq!(r.reply, None);
    assert_eq!(r.token, None);
}

#[test]
fn remove_instance_missing_address_is_noop() {
    let mut cfg = ServerConfiguration::new(10);
    let t = add_front(&mut cfg, "x", 9000).unwrap();
    cfg.add_instance("x", &addr("10.0.0.1", 1));
    assert_eq!(cfg.remove_instance("x", &addr("10.0.0.9", 9)), Some(t));
    let l = cfg.listeners.get(t).unwrap();
    assert_eq!(l.back_addresses.len(), 1);
    assert_eq!(l.back_addresses[0].ip, "10.0.0.1");
}

#[test]
fn duplicate_instances_are_kept() {
    let mut cfg = ServerConfiguration::new(10);
    let t = add_front(&mut cfg, "x", 9000).unwrap();
    cfg.add_instance("x", &addr("10.0.0.1", 1));
    cfg.add_instance("x", &addr("10.0.0.1", 1));
    let l = cfg.listeners.get(t).unwrap();
    assert_eq!(l.back_addresses.len(), 2);
}
