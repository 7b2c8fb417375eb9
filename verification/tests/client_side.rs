use socket_chat::classify_join_reply;
use socket_chat::encode_join;
use socket_chat::parse_message;
use socket_chat::parse_response;
use socket_chat::ClientError;
use socket_chat::JoinReply;
use socket_chat::LogMessagType;
use socket_chat::ResponseEvent;

fn bytes(s: &str) -> Vec<u8> {
    s.as_bytes().to_vec()
}

/// A fixed-size receive buffer holding `s` followed by zero padding.
fn padded(s: &str) -> Vec<u8> {
    let mut buffer = vec![0u8; 1024];
    buffer[..s.len()].copy_from_slice(s.as_bytes());
    buffer
}

#[test]
fn join_request_encodes_name() {
    assert_eq!(encode_join(&bytes("alice")), bytes("CON alice"));
}

#[test]
fn plain_text_becomes_chat_request() {
    let encoded = parse_message(&bytes("alice"), &bytes("hello")).unwrap();
    assert_eq!(encoded, bytes("MSG alice hello"));
}

#[test]
fn whisper_becomes_command_request() {
    let encoded = parse_message(&bytes("alice"), &bytes("/w bob hello there")).unwrap();
    assert_eq!(encoded, bytes("CMD alice /w bob hello there"));
}

#[test]
fn logout_becomes_command_request() {
    let encoded = parse_message(&bytes("alice"), &bytes("/exit")).unwrap();
    assert_eq!(encoded, bytes("CMD alice /exit"));
}

#[test]
fn unknown_command_is_refused_locally() {
    assert_eq!(
        parse_message(&bytes("alice"), &bytes("/dance")),
        Err(ClientError::UnknownCommand)
    );
    assert_eq!(
        parse_message(&bytes("alice"), &bytes("/wave hi")),
        Err(ClientError::UnknownCommand)
    );
}

#[test]
fn join_reply_classification() {
    assert_eq!(classify_join_reply(&padded("CAC")), JoinReply::Accepted);
    assert_eq!(classify_join_reply(&padded("CDE")), JoinReply::Denied);
    assert_eq!(classify_join_reply(&padded("CACX")), JoinReply::Unknown);
    assert_eq!(classify_join_reply(&padded("")), JoinReply::Unknown);
    assert_eq!(classify_join_reply(&bytes("CAC")), JoinReply::Accepted);
}

#[test]
fn disconnect_notice_is_recognized() {
    assert!(matches!(parse_response(&padded("CDE")), ResponseEvent::Disconnected));
}

#[test]
fn public_message_decodes_sender_and_text() {
    match parse_response(&padded("MSG alice hello there")) {
        ResponseEvent::Public { sender, message } => {
            assert_eq!(sender, bytes("alice"));
            assert_eq!(message, bytes("hello there"));
        },
        _ => panic!("expected a public message"),
    }
}

#[test]
fn private_message_decodes_sender_and_text() {
    match parse_response(&padded("PRM alice secret")) {
        ResponseEvent::Private { sender, message } => {
            assert_eq!(sender, bytes("alice"));
            assert_eq!(message, bytes("secret"));
        },
        _ => panic!("expected a private message"),
    }
}

#[test]
fn join_and_leave_notices_decode_names() {
    match parse_response(&padded("UJS bob")) {
        ResponseEvent::Joined { name } => assert_eq!(name, bytes("bob")),
        _ => panic!("expected a join notice"),
    }
    match parse_response(&padded("ULS bob")) {
        ResponseEvent::Left { name } => assert_eq!(name, bytes("bob")),
        _ => panic!("expected a leave notice"),
    }
}

#[test]
fn unknown_responses_are_ignored() {
    assert!(matches!(parse_response(&padded("XYZ alice hi")), ResponseEvent::Ignored));
    assert!(matches!(parse_response(&padded("MS")), ResponseEvent::Ignored));
    assert!(matches!(parse_response(&padded("MSG")), ResponseEvent::Ignored));
    assert!(matches!(parse_response(&padded("UJS ")), ResponseEvent::Ignored));
    assert!(matches!(parse_response(&vec![0u8; 1024]), ResponseEvent::Ignored));
}

#[test]
fn log_tags() {
    assert_eq!(LogMessagType::Information.as_abbreviation(), "INFO");
    assert_eq!(LogMessagType::IncomingRequest.as_abbreviation(), "REQ");
    assert_eq!(LogMessagType::EncounteredError.as_abbreviation(), "ERR");
    assert_eq!(LogMessagType::RequestHandled.as_abbreviation(), "OK");
}
