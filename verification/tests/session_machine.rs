use tcp_proxy::client::Client;
use tcp_proxy::client::ConnectionStatus;
use tcp_proxy::messages::ClientResult;

fn connected_client() -> Client {
    let mut c = Client::new(3);
    c.set_tokens(10, 510);
    c
}

#[test]
fn fresh_client_fields() {
    let c = Client::new(7);
    assert_eq!(c.status, ConnectionStatus::Initial);
    assert_eq!(c.accept_token, 7);
    assert_eq!(c.front_token(), None);
    assert_eq!(c.back_token(), None);
    assert_eq!(c.rx_count, 0);
    assert_eq!(c.tx_count, 0);
    assert!(!c.front_interest.readable);
    assert!(!c.front_interest.writable);
    assert!(!c.back_interest.readable);
    assert!(!c.back_interest.writable);
}

#[test]
fn set_tokens_records_both() {
    let mut c = Client::new(0);
    c.set_tokens(11, 511);
    assert_eq!(c.front_token(), Some(11));
    assert_eq!(c.back_token(), Some(511));
    c.set_front_token(12);
    c.set_back_token(512);
    assert_eq!(c.front_token(), Some(12));
    assert_eq!(c.back_token(), Some(512));
}

#[test]
fn connect_established_interests() {
    let mut c = connected_client();
    c.connect_established();
    assert_eq!(c.status, ConnectionStatus::ClientConnected);
    assert!(c.front_interest.readable);
    assert!(!c.front_interest.writable);
    assert!(c.back_interest.writable);
}

#[test]
fn first_byte_moves_to_connected() {
    let mut c = connected_client();
    c.connect_established();
    let r = c.readable(b"hi");
    assert_eq!(r, ClientResult::Continue);
    assert_eq!(c.status, ConnectionStatus::Connected);
    assert_eq!(c.rx_count, 2);
    assert_eq!(c.front_buf.pending(), b"hi");
    assert!(!c.front_interest.readable);
    assert!(c.back_interest.writable);
}

#[test]
fn would_block_read_keeps_interest() {
    let mut c = connected_client();
    c.connect_established();
    let r = c.readable(b"");
    assert_eq!(r, ClientResult::Continue);
    assert_eq!(c.status, ConnectionStatus::ClientConnected);
    assert_eq!(c.rx_count, 0);
    assert!(c.front_interest.readable);
}

#[test]
fn partial_write_advances_exactly() {
    let mut c = connected_client();
    c.connect_established();
    c.readable(b"abcdef");
    assert_eq!(c.front_buf.pending(), b"abcdef");
    let r = c.back_writable(3);
    assert_eq!(r, ClientResult::Continue);
    assert_eq!(c.front_buf.pending(), b"def");
    assert!(c.back_interest.writable);
    assert!(!c.front_interest.readable);
    let r = c.back_writable(3);
    assert_eq!(r, ClientResult::Continue);
    assert!(c.front_buf.is_empty());
    assert!(!c.back_interest.writable);
    assert!(c.front_interest.readable);
    assert_eq!(c.rx_count, 6);
}

#[test]
fn relay_back_to_front_counts_tx() {
    let mut c = connected_client();
    c.connect_established();
    c.back_readable(b"hello END");
    assert_eq!(c.status, ConnectionStatus::Connected);
    assert_eq!(c.back_buf.pending(), b"hello END");
    assert!(c.front_interest.writable);
    assert!(!c.back_interest.readable);
    let r = c.writable(9);
    assert_eq!(r, ClientResult::Continue);
    assert_eq!(c.tx_count, 9);
    assert!(c.back_buf.is_empty());
    assert!(!c.front_interest.writable);
}

#[test]
fn front_hup_in_connected_drains_on() {
    let mut c = connected_client();
    c.connect_established();
    c.readable(b"tail");
    let r = c.front_hup();
    assert_eq!(r, ClientResult::Continue);
    assert_eq!(c.status, ConnectionStatus::ClientClosed);
    assert!(!c.front_interest.readable);
    assert!(c.back_interest.writable);
    let r = c.back_writable(4);
    assert_eq!(r, ClientResult::CloseClient);
    assert_eq!(c.status, ConnectionStatus::Closed);
}

#[test]
fn front_hup_before_answer_tears_down() {
    let mut c = connected_client();
    c.connect_established();
    let r = c.front_hup();
    assert_eq!(r, ClientResult::CloseClient);
    assert_eq!(c.status, ConnectionStatus::Closed);
}

#[test]
fn back_hup_then_front_hup() {
    let mut c = connected_client();
    c.connect_established();
    c.readable(b"x");
    let r = c.back_hup();
    assert_eq!(r, ClientResult::Continue);
    assert_eq!(c.status, ConnectionStatus::ServerClosed);
    let r = c.front_hup();
    assert_eq!(r, ClientResult::CloseClient);
    assert_eq!(c.status, ConnectionStatus::Closed);
}

#[test]
fn server_closed_drain_to_front_closes() {
    let mut c = connected_client();
    c.connect_established();
    c.back_readable(b"bye");
    let r = c.back_hup();
    assert_eq!(r, ClientResult::Continue);
    assert_eq!(c.status, ConnectionStatus::ServerClosed);
    let r = c.writable(3);
    assert_eq!(r, ClientResult::CloseClient);
    assert_eq!(c.status, ConnectionStatus::Closed);
    assert_eq!(c.tx_count, 3);
}

#[test]
fn hup_on_drained_client_closed_session() {
    let mut c = connected_client();
    c.connect_established();
    c.readable(b"z");
    c.back_writable(1);
    c.front_hup();
    assert_eq!(c.status, ConnectionStatus::ClientClosed);
    let r = c.back_hup();
    assert_eq!(r, ClientResult::CloseClient);
    assert_eq!(c.status, ConnectionStatus::Closed);
}

#[test]
fn socket_error_forces_closed() {
    let mut c = connected_client();
    c.connect_established();
    c.readable(b"oops");
    c.socket_error();
    assert_eq!(c.status, ConnectionStatus::Closed);
    assert_eq!(c.front_buf.pending(), b"oops");
    assert_eq!(c.rx_count, 4);
}

#[test]
fn full_capacity_chunk_through_session() {
    let mut c = connected_client();
    c.connect_established();
    let big = vec![5u8; 2048];
    c.readable(&big);
    assert_eq!(c.rx_count, 2048);
    assert_eq!(c.front_buf.len(), 2048);
    let r = c.back_writable(2048);
    assert_eq!(r, tcp_proxy::messages::ClientResult::Continue);
    assert!(c.front_buf.is_empty());
    assert!(c.front_interest.readable);
}

#[test]
fn would_block_write_keeps_interest() {
    let mut c = connected_client();
    c.connect_established();
    c.readable(b"stuck");
    let r = c.back_writable(0);
    assert_eq!(r, ClientResult::Continue);
    assert_eq!(c.front_buf.pending(), b"stuck");
    assert!(c.back_interest.writable);
}
