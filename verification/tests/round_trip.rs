//! End-to-end paths: what one client types, encoded, dispatched by the
//! server, and decoded by another client.

use socket_chat::handle_request;
use socket_chat::handshake;
use socket_chat::parse_message;
use socket_chat::parse_response;
use socket_chat::ClientList;
use socket_chat::HandshakeOutcome;
use socket_chat::ResponseEvent;

fn bytes(s: &str) -> Vec<u8> {
    s.as_bytes().to_vec()
}

/// A fixed-size receive buffer holding `s` followed by zero padding.
fn padded(s: &str) -> Vec<u8> {
    let mut buffer = vec![0u8; 1024];
    buffer[..s.len()].copy_from_slice(s.as_bytes());
    buffer
}

/// `v` followed by zero padding, as the receiving side sees a written
/// message.
fn as_received(v: &[u8]) -> Vec<u8> {
    let mut buffer = vec![0u8; 1024];
    buffer[..v.len()].copy_from_slice(v);
    buffer
}

#[test]
fn join_round_trip() {
    let request = socket_chat::encode_join(&bytes("alice"));
    assert_eq!(request, bytes("CON alice"));
    let mut list = ClientList::new();
    match handshake(&mut list, &as_received(&request), 7) {
        HandshakeOutcome::Accepted { name, .. } => assert_eq!(name, bytes("alice")),
        _ => panic!("expected acceptance"),
    }
}

#[test]
fn chat_round_trip() {
    let mut list = ClientList::new();
    handshake(&mut list, &padded("CON alice"), 1);
    handshake(&mut list, &padded("CON bob"), 2);
    let request = parse_message(&bytes("alice"), &bytes("hello bob")).unwrap();
    let (deliveries, _) = handle_request(&mut list, &as_received(&request));
    let to_bob = deliveries.iter().find(|d| d.conn == 2).unwrap();
    match parse_response(&as_received(&to_bob.message)) {
        ResponseEvent::Public { sender, message } => {
            assert_eq!(sender, bytes("alice"));
            assert_eq!(message, bytes("hello bob"));
        },
        _ => panic!("expected a public message"),
    }
}

#[test]
fn whisper_round_trip() {
    let mut list = ClientList::new();
    handshake(&mut list, &padded("CON alice"), 1);
    handshake(&mut list, &padded("CON bob"), 2);
    let request = parse_message(&bytes("alice"), &bytes("/w bob hello there")).unwrap();
    let (deliveries, _) = handle_request(&mut list, &as_received(&request));
    assert_eq!(deliveries.len(), 1);
    assert_eq!(deliveries[0].conn, 2);
    match parse_response(&as_received(&deliveries[0].message)) {
        ResponseEvent::Private { sender, message } => {
            assert_eq!(sender, bytes("alice"));
            assert_eq!(message, bytes("hello there"));
        },
        _ => panic!("expected a private message"),
    }
}

#[test]
fn logout_round_trip() {
    let mut list = ClientList::new();
    handshake(&mut list, &padded("CON alice"), 1);
    handshake(&mut list, &padded("CON bob"), 2);
    let request = parse_message(&bytes("alice"), &bytes("/exit")).unwrap();
    let (deliveries, _) = handle_request(&mut list, &as_received(&request));
    assert!(matches!(
        parse_response(&as_received(&deliveries[0].message)),
        ResponseEvent::Disconnected
    ));
    let to_bob = deliveries.iter().find(|d| d.conn == 2).unwrap();
    match parse_response(&as_received(&to_bob.message)) {
        ResponseEvent::Left { name } => assert_eq!(name, bytes("alice")),
        _ => panic!("expected a leave notice"),
    }
    assert!(list.name_exists(&bytes("alice")).is_none());
}
