use minidumper::error::Error;
use minidumper::wire::{
    checked_user_kind, decode_acked_user_message, decode_acked_user_response,
    encode_acked_user_message, encode_acked_user_response, Header, MessageAck,
    ACKED_USER_RESPONSE_PAYLOAD_SIZE, MAX_USER_KIND_EXCLUSIVE, USER,
};

#[test]
fn header_bytes() {
    let expected = Header {
        kind: 20,
        size: 8 * 1024,
    };
    let exp_bytes = expected.as_bytes();

    let actual = Header::from_bytes(&exp_bytes).unwrap();

    assert_eq!(expected, actual);
}

#[test]
fn user_kinds_stop_below_the_reserved_range() {
    assert_eq!(
        checked_user_kind(MAX_USER_KIND_EXCLUSIVE - 1).unwrap(),
        USER + MAX_USER_KIND_EXCLUSIVE - 1
    );
    assert!(matches!(
        checked_user_kind(MAX_USER_KIND_EXCLUSIVE),
        Err(Error::ProtocolError("user message kind is reserved"))
    ));
}

#[test]
fn acked_user_message_roundtrips() {
    let encoded = encode_acked_user_message(0x0102_0304_0506_0708, 42, b"semantic payload");
    let (request_id, user_kind, payload) = decode_acked_user_message(encoded).unwrap();

    assert_eq!(request_id, 0x0102_0304_0506_0708);
    assert_eq!(user_kind, 42);
    assert_eq!(payload, b"semantic payload");
}

#[test]
fn acked_user_message_roundtrips_an_empty_payload() {
    let encoded = encode_acked_user_message(1, 0, &[]);
    assert_eq!(decode_acked_user_message(encoded).unwrap(), (1, 0, vec![]));
}

#[test]
fn acked_user_message_rejects_a_truncated_prefix() {
    assert!(matches!(
        decode_acked_user_message(vec![0; 11]),
        Err(Error::ProtocolError(
            "acknowledged user message is too short"
        ))
    ));
}

#[test]
fn acked_user_response_statuses_roundtrip() {
    for status in [
        MessageAck::Accepted,
        MessageAck::Rejected,
        MessageAck::Unsupported,
    ] {
        let encoded = encode_acked_user_response(99, status);
        assert_eq!(decode_acked_user_response(&encoded).unwrap(), (99, status));
    }
}

#[test]
fn acked_user_response_rejects_a_mis_sized_payload() {
    assert!(decode_acked_user_response(&[0; ACKED_USER_RESPONSE_PAYLOAD_SIZE - 1]).is_err());
    assert!(decode_acked_user_response(&[0; ACKED_USER_RESPONSE_PAYLOAD_SIZE + 1]).is_err());
}

#[test]
fn acked_user_response_rejects_an_unknown_status() {
    let mut encoded = encode_acked_user_response(7, MessageAck::Accepted);
    encoded[std::mem::size_of::<u64>()] = u8::MAX;

    assert!(matches!(
        decode_acked_user_response(&encoded),
        Err(Error::ProtocolError(
            "acknowledged user response has an unknown status"
        ))
    ));
}
