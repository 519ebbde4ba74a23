//! Relay scenarios driven at the engine level: the reactor decisions
//! are exercised with the socket outcomes a run of the event loop would
//! feed them — an echoing back end that answers each chunk with the
//! chunk followed by " END".

use tcp_proxy::client::ConnectionStatus;
use tcp_proxy::config::ServerConfiguration;
use tcp_proxy::messages::ClientResult;
use tcp_proxy::messages::Command;
use tcp_proxy::messages::Instance;
use tcp_proxy::messages::ServerMessage;
use tcp_proxy::messages::TcpFront;
use tcp_proxy::messages::TcpProxyOrder;
use tcp_proxy::server::Server;
use tcp_proxy::server::TokenTarget;

const MAX_LISTENERS: usize = 10;
const MAX_CONNECTIONS: usize = 500;

fn front(app: &str, port: u16) -> TcpProxyOrder {
    TcpProxyOrder::Command(Command::AddTcpFront(TcpFront { app_id: app.to_string(), port }))
}

fn instance(app: &str, ip: &str, port: u16) -> TcpProxyOrder {
    TcpProxyOrder::Command(Command::AddInstance(Instance {
        app_id: app.to_string(),
        ip_address: ip.to_string(),
        port,
    }))
}

/// A proxy configured as in the echo scenarios: front `yolo` on port
/// 1234, one back end on 127.0.0.1:5678.
fn echo_proxy() -> (Server, usize) {
    let cfg = ServerConfiguration::new(MAX_LISTENERS);
    let mut server = Server::new(MAX_LISTENERS, MAX_CONNECTIONS, cfg);
    let r = server.notify(front("yolo", 1234), true);
    assert_eq!(r.reply, Some(ServerMessage::AddedFront));
    let listener = r.token.unwrap();
    let r = server.notify(instance("yolo", "127.0.0.1", 5678), false);
    assert_eq!(r.reply, Some(ServerMessage::AddedInstance));
    (server, listener)
}

/// Accept one client on `listener` and hand it to the reactor, as the
/// event loop does once the back-end connect went through.
fn open_session(server: &mut Server, listener: usize) -> usize {
    let client = server.configuration().accept(listener).unwrap();
    let backend = server.configuration().connect_to_backend(&client).unwrap();
    assert_eq!(backend.ip, "127.0.0.1");
    assert_eq!(backend.port, 5678);
    let (ft, bt) = server.insert_accepted(client).unwrap();
    let i = ft - MAX_LISTENERS;
    assert_eq!(bt, MAX_LISTENERS + MAX_CONNECTIONS + i);
    i
}

/// Relay one chunk the client wrote through session `i` and back,
/// with the back end echoing `chunk + " END"`; returns what the client
/// reads.
fn echo_round(server: &mut Server, i: usize, chunk: &[u8]) -> Vec<u8> {
    assert_eq!(server.front_readable(i, chunk), ClientResult::Continue);
    let pending = server.client(i).unwrap().front_buf.pending().to_vec();
    assert_eq!(pending, chunk);
    assert_eq!(server.back_writable(i, pending.len()), ClientResult::Continue);
    let mut reply = pending;
    reply.extend_from_slice(b" END");
    assert_eq!(server.back_readable(i, &reply), ClientResult::Continue);
    let out = server.client(i).unwrap().back_buf.pending().to_vec();
    assert_eq!(server.front_writable(i, out.len()), ClientResult::Continue);
    out
}

#[test]
fn echo_relay_single_client() {
    let (mut server, listener) = echo_proxy();
    assert!(matches!(server.token_target(listener), TokenTarget::Listener(_)));
    let s1 = open_session(&mut server, listener);
    let got = echo_round(&mut server, s1, b"hello");
    assert_eq!(got, b"hello END");
    let c = server.client(s1).unwrap();
    assert_eq!(c.status, ConnectionStatus::Connected);
    assert_eq!(c.rx_count, 5);
    assert_eq!(c.tx_count, 9);
}

#[test]
fn multiplexed_sessions_stay_apart() {
    let (mut server, listener) = echo_proxy();
    let s1 = open_session(&mut server, listener);
    let s2 = open_session(&mut server, listener);
    let s3 = open_session(&mut server, listener);
    assert_ne!(s1, s2);
    assert_ne!(s2, s3);

    let got1 = echo_round(&mut server, s1, b"hello");
    let got2 = echo_round(&mut server, s2, b"pouet pouet");

    // c3 shuts down both directions without sending a byte.
    let r = server.front_hup(s3);
    assert_eq!(r, ClientResult::CloseClient);
    assert_eq!(server.client(s3).unwrap().status, ConnectionStatus::Closed);
    let removed = server.remove_client(s3).unwrap();
    assert_eq!(removed.rx_count, 0);
    assert_eq!(removed.tx_count, 0);

    assert_eq!(got1, b"hello END");
    assert_eq!(got2, b"pouet pouet END");
    let c1 = server.client(s1).unwrap();
    let c2 = server.client(s2).unwrap();
    assert_eq!(c1.rx_count, 5);
    assert_eq!(c2.rx_count, 11);
    assert_eq!(c2.tx_count, 15);
}

#[test]
fn sequential_writes_on_one_session() {
    let (mut server, listener) = echo_proxy();
    let s1 = open_session(&mut server, listener);
    assert_eq!(echo_round(&mut server, s1, b"hello"), b"hello END");
    assert_eq!(echo_round(&mut server, s1, b"coucou"), b"coucou END");
    let c = server.client(s1).unwrap();
    assert_eq!(c.rx_count, 11);
    assert_eq!(c.tx_count, 19);
}

#[test]
fn add_instance_after_front() {
    let cfg = ServerConfiguration::new(MAX_LISTENERS);
    let mut server = Server::new(MAX_LISTENERS, MAX_CONNECTIONS, cfg);
    let r = server.notify(front("X", 9000), true);
    assert_eq!(r.reply, Some(ServerMessage::AddedFront));
    let listener = r.token.unwrap();
    let r = server.notify(instance("X", "127.0.0.1", 5678), false);
    assert_eq!(r.reply, Some(ServerMessage::AddedInstance));
    let client = server.configuration().accept(listener).unwrap();
    let backend = server.configuration().connect_to_backend(&client).unwrap();
    assert_eq!(backend.ip, "127.0.0.1");
    assert_eq!(backend.port, 5678);
}

#[test]
fn add_instance_before_front_seeds_listener() {
    let cfg = ServerConfiguration::new(MAX_LISTENERS);
    let mut server = Server::new(MAX_LISTENERS, MAX_CONNECTIONS, cfg);
    let r = server.notify(instance("X", "127.0.0.1", 5678), false);
    // No front yet: the pool is recorded but no reply is owed.
    assert_eq!(r.reply, None);
    let r = server.notify(front("X", 9000), true);
    assert_eq!(r.reply, Some(ServerMessage::AddedFront));
    let listener = r.token.unwrap();
    let client = server.configuration().accept(listener).unwrap();
    let backend = server.configuration().connect_to_backend(&client).unwrap();
    assert_eq!(backend.ip, "127.0.0.1");
    assert_eq!(backend.port, 5678);
}

#[test]
fn stop_latches_shutdown() {
    let (mut server, _) = echo_proxy();
    assert!(!server.is_stopping());
    let r = server.notify(TcpProxyOrder::Stop, false);
    assert!(r.stop);
    assert_eq!(r.reply, None);
    assert!(server.is_stopping());
}

#[test]
fn session_slab_full_drops_accept() {
    let cfg = ServerConfiguration::new(2);
    let mut server = Server::new(2, 1, cfg);
    let r = server.notify(front("yolo", 1234), true);
    let listener = r.token.unwrap();
    server.notify(instance("yolo", "127.0.0.1", 5678), false);
    let c1 = server.configuration().accept(listener).unwrap();
    assert!(server.insert_accepted(c1).is_some());
    let c2 = server.configuration().accept(listener).unwrap();
    assert!(server.insert_accepted(c2).is_none());
}

#[test]
fn token_dispatch_flat_namespace() {
    let (mut server, listener) = echo_proxy();
    let s1 = open_session(&mut server, listener);
    assert!(matches!(server.token_target(listener), TokenTarget::Listener(t) if t == listener));
    assert!(
        matches!(server.token_target(MAX_LISTENERS + s1), TokenTarget::SessionFront(i) if i == s1)
    );
    assert!(matches!(
        server.token_target(MAX_LISTENERS + MAX_CONNECTIONS + s1),
        TokenTarget::SessionBack(i) if i == s1
    ));
    assert!(matches!(server.token_target(MAX_LISTENERS + s1 + 1), TokenTarget::Unknown));
    server.remove_client(s1).unwrap();
    assert!(matches!(server.token_target(MAX_LISTENERS + s1), TokenTarget::Unknown));
}
