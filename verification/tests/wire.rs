use socket_chat::parse_request;
use socket_chat::trim_zeros;

fn bytes(s: &str) -> Vec<u8> {
    s.as_bytes().to_vec()
}

#[test]
fn trimming_strips_only_trailing_zeros() {
    let mut buffer = bytes("MSG alice hi");
    buffer.extend(std::iter::repeat(0u8).take(1012));
    assert_eq!(trim_zeros(&buffer), bytes("MSG alice hi"));

    let mut inner = bytes("a");
    inner.push(0);
    inner.extend(bytes("b"));
    let mut padded = inner.clone();
    padded.extend(std::iter::repeat(0u8).take(5));
    assert_eq!(trim_zeros(&padded), inner);

    assert_eq!(trim_zeros(&vec![0u8; 16]), Vec::<u8>::new());
    assert_eq!(trim_zeros(&Vec::new()), Vec::<u8>::new());
}

#[test]
fn request_splits_into_opcode_sender_payload() {
    let req = parse_request(&bytes("MSG alice hello world")).unwrap();
    assert_eq!(req.opcode, bytes("MSG"));
    assert_eq!(req.sender, bytes("alice"));
    assert_eq!(req.payload, bytes("hello world"));
}

#[test]
fn request_without_payload_has_empty_payload() {
    let req = parse_request(&bytes("MSG alice")).unwrap();
    assert_eq!(req.sender, bytes("alice"));
    assert_eq!(req.payload, Vec::<u8>::new());
}

#[test]
fn unframed_requests_are_refused() {
    assert!(parse_request(&bytes("")).is_none());
    assert!(parse_request(&bytes("MSG ")).is_none());
    assert!(parse_request(&bytes("MSGXalice hi")).is_none());
    assert!(parse_request(&bytes("MSG  alice")).is_none());
}
