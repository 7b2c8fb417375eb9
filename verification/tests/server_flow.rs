use socket_chat::handle_request;
use socket_chat::handshake;
use socket_chat::ClientList;
use socket_chat::DispatchOutcome;
use socket_chat::HandshakeOutcome;

fn bytes(s: &str) -> Vec<u8> {
    s.as_bytes().to_vec()
}

/// A fixed-size receive buffer holding `s` followed by zero padding.
fn padded(s: &str) -> Vec<u8> {
    let mut buffer = vec![0u8; 1024];
    buffer[..s.len()].copy_from_slice(s.as_bytes());
    buffer
}

fn three_member_registry() -> ClientList {
    let mut list = ClientList::new();
    list.add(bytes("alice"), 1).unwrap();
    list.add(bytes("bob"), 2).unwrap();
    list.add(bytes("carol"), 3).unwrap();
    list
}

#[test]
fn first_connection_is_accepted() {
    let mut list = ClientList::new();
    match handshake(&mut list, &padded("CON alice"), 1) {
        HandshakeOutcome::Accepted { name, reply, deliveries } => {
            assert_eq!(name, bytes("alice"));
            assert_eq!(reply, bytes("CAC"));
            // The join announcement reaches every session, the new one included.
            assert_eq!(deliveries.len(), 1);
            assert_eq!(deliveries[0].conn, 1);
            assert_eq!(deliveries[0].message, bytes("UJS alice"));
        },
        _ => panic!("expected acceptance"),
    }
    assert_eq!(list.len(), 1);
    assert!(list.name_exists(&bytes("alice")).is_some());
}

#[test]
fn duplicate_name_is_denied() {
    let mut list = ClientList::new();
    assert!(matches!(
        handshake(&mut list, &padded("CON alice"), 1),
        HandshakeOutcome::Accepted { .. }
    ));
    match handshake(&mut list, &padded("CON alice"), 2) {
        HandshakeOutcome::Denied { reply } => assert_eq!(reply, bytes("CDE")),
        _ => panic!("expected denial"),
    }
    assert_eq!(list.len(), 1);
}

#[test]
fn malformed_handshake_is_dropped() {
    let mut list = ClientList::new();
    assert!(matches!(handshake(&mut list, &padded("MSG alice hi"), 1), HandshakeOutcome::Malformed));
    assert!(matches!(handshake(&mut list, &padded("CON"), 1), HandshakeOutcome::Malformed));
    assert!(matches!(handshake(&mut list, &padded("CON "), 1), HandshakeOutcome::Malformed));
    assert!(matches!(handshake(&mut list, &vec![0u8; 1024], 1), HandshakeOutcome::Malformed));
    assert_eq!(list.len(), 0);
}

#[test]
fn join_announcement_reaches_earlier_sessions() {
    let mut list = ClientList::new();
    handshake(&mut list, &padded("CON alice"), 1);
    match handshake(&mut list, &padded("CON bob"), 2) {
        HandshakeOutcome::Accepted { deliveries, .. } => {
            assert_eq!(deliveries.len(), 2);
            assert_eq!(deliveries[0].conn, 1);
            assert_eq!(deliveries[0].message, bytes("UJS bob"));
            assert_eq!(deliveries[1].conn, 2);
            assert_eq!(deliveries[1].message, bytes("UJS bob"));
        },
        _ => panic!("expected acceptance"),
    }
}

#[test]
fn chat_message_is_broadcast_verbatim() {
    let mut list = three_member_registry();
    let (deliveries, outcome) = handle_request(&mut list, &padded("MSG alice hello"));
    assert_eq!(outcome, DispatchOutcome::Broadcast);
    assert_eq!(deliveries.len(), 3);
    for (d, conn) in deliveries.iter().zip([1u64, 2, 3]) {
        assert_eq!(d.conn, conn);
        assert_eq!(d.message, bytes("MSG alice hello"));
    }
    assert_eq!(list.len(), 3);
}

#[test]
fn whisper_reaches_only_its_target() {
    let mut list = three_member_registry();
    let (deliveries, outcome) = handle_request(&mut list, &padded("CMD alice /w bob secret"));
    assert_eq!(outcome, DispatchOutcome::Whispered);
    assert_eq!(deliveries.len(), 1);
    assert_eq!(deliveries[0].conn, 2);
    assert_eq!(deliveries[0].message, bytes("PRM alice secret"));
    assert_eq!(list.len(), 3);
}

#[test]
fn whisper_keeps_spaces_in_the_text() {
    let mut list = three_member_registry();
    let (deliveries, outcome) = handle_request(&mut list, &padded("CMD alice /w bob hello there"));
    assert_eq!(outcome, DispatchOutcome::Whispered);
    assert_eq!(deliveries.len(), 1);
    assert_eq!(deliveries[0].message, bytes("PRM alice hello there"));
}

#[test]
fn whisper_to_missing_target_delivers_nothing() {
    let mut list = three_member_registry();
    let (deliveries, outcome) = handle_request(&mut list, &padded("CMD alice /w dave hi"));
    assert_eq!(outcome, DispatchOutcome::WhisperTargetMissing);
    assert!(deliveries.is_empty());
    assert_eq!(list.len(), 3);
}

#[test]
fn logout_notifies_and_removes() {
    let mut list = three_member_registry();
    let (deliveries, outcome) = handle_request(&mut list, &padded("CMD alice /exit"));
    assert_eq!(outcome, DispatchOutcome::LoggedOut);
    // The leaver is told first, then the departure is announced to every
    // session still present at that moment.
    assert_eq!(deliveries.len(), 4);
    assert_eq!(deliveries[0].conn, 1);
    assert_eq!(deliveries[0].message, bytes("CDE"));
    for (d, conn) in deliveries[1..].iter().zip([1u64, 2, 3]) {
        assert_eq!(d.conn, conn);
        assert_eq!(d.message, bytes("ULS alice"));
    }
    assert_eq!(list.len(), 2);
    assert!(list.name_exists(&bytes("alice")).is_none());
    assert!(list.name_exists(&bytes("bob")).is_some());
    assert!(list.name_exists(&bytes("carol")).is_some());
}

#[test]
fn logout_from_unknown_sender_changes_nothing() {
    let mut list = three_member_registry();
    let (deliveries, outcome) = handle_request(&mut list, &padded("CMD dave /exit"));
    assert_eq!(outcome, DispatchOutcome::LogoutSenderMissing);
    assert!(deliveries.is_empty());
    assert_eq!(list.len(), 3);
}

#[test]
fn unknown_command_is_rejected_without_effect() {
    let mut list = three_member_registry();
    let (deliveries, outcome) = handle_request(&mut list, &padded("CMD alice /dance"));
    assert_eq!(outcome, DispatchOutcome::InvalidCommand);
    assert!(deliveries.is_empty());
    assert_eq!(list.len(), 3);
}

#[test]
fn unknown_opcode_is_discarded() {
    let mut list = three_member_registry();
    let (deliveries, outcome) = handle_request(&mut list, &padded("XYZ alice hello"));
    assert_eq!(outcome, DispatchOutcome::InvalidIdentifier);
    assert!(deliveries.is_empty());
    assert_eq!(list.len(), 3);
}

#[test]
fn malformed_requests_are_discarded() {
    let mut list = three_member_registry();
    for raw in ["", "MS", "MSG", "MSG ", "MSG  double", "CMD alice", "CMD alice /w"] {
        let (deliveries, outcome) = handle_request(&mut list, &padded(raw));
        assert_eq!(outcome, DispatchOutcome::MalformedRequest, "request {:?}", raw);
        assert!(deliveries.is_empty());
    }
    assert_eq!(list.len(), 3);
}
