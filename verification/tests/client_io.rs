use minidumper::client_io::{ClientIo, Transport};
use minidumper::error::{Error, ErrorKind};
use minidumper::outgoing::Payload;
use minidumper::response::{
    decode_datagram, decode_response_frame, response_payload_size, ExpectedResponse, ResponseFrame,
    RouteOutcome,
};
use minidumper::wire::{
    encode_acked_user_response, Header, MessageAck, ACKED_USER_RESPONSE, CRASH_ACK, PONG,
};

/// The failure this whole protocol exists to prevent: a response to a request the caller already gave
/// up on must not be mistaken for the crash ack that the minidump request is waiting for.
#[test]
fn late_response_is_discarded_before_the_crash_ack() {
    let mut io = ClientIo::new();
    io.abandoned_ack_ids.insert(23);

    assert_eq!(
        io.route_response(
            ExpectedResponse::CrashAck,
            ResponseFrame::Ack {
                request_id: 23,
                status: MessageAck::Accepted,
            },
        )
        .unwrap(),
        RouteOutcome::Discarded
    );
    assert_eq!(
        io.route_response(ExpectedResponse::CrashAck, ResponseFrame::CrashAck)
            .unwrap(),
        RouteOutcome::Complete(None)
    );
    assert!(io.usable);
    assert!(io.abandoned_ack_ids.is_empty());
}

#[test]
fn response_for_an_unknown_request_is_a_protocol_error() {
    let mut io = ClientIo::new();

    assert!(io
        .route_response(
            ExpectedResponse::Ack(1),
            ResponseFrame::Ack {
                request_id: 2,
                status: MessageAck::Accepted,
            },
        )
        .is_err());
    assert!(!io.usable);
}

#[test]
fn an_unexpected_response_makes_the_stream_unusable() {
    let mut io = ClientIo::new();

    assert!(io
        .route_response(ExpectedResponse::Pong, ResponseFrame::CrashAck)
        .is_err());
    assert!(!io.usable);
    assert!(io.ensure_usable().is_err());
}

#[test]
fn an_abandoned_response_is_expected_once() {
    let mut io = ClientIo::new();
    io.abandon(4);
    let late = ResponseFrame::Ack {
        request_id: 4,
        status: MessageAck::Rejected,
    };
    assert_eq!(
        io.route_response(ExpectedResponse::Pong, late).unwrap(),
        RouteOutcome::Discarded
    );
    assert!(matches!(
        io.route_response(ExpectedResponse::Pong, late),
        Err(Error::ProtocolError("received an unexpected IPC response"))
    ));
    assert!(matches!(
        io.ensure_usable(),
        Err(Error::ProtocolError("the IPC response stream is unusable"))
    ));
    assert!(matches!(
        io.write_frame(2, Payload::Borrowed(&[])),
        Err(Error::ProtocolError("the IPC response stream is unusable"))
    ));
}

#[test]
fn an_awaited_response_is_taken_even_if_its_id_was_abandoned() {
    let mut io = ClientIo::new();
    io.abandon(4);
    assert_eq!(
        io.route_response(
            ExpectedResponse::Ack(4),
            ResponseFrame::Ack {
                request_id: 4,
                status: MessageAck::Unsupported,
            }
        )
        .unwrap(),
        RouteOutcome::Complete(Some(MessageAck::Unsupported))
    );
    assert!(io.abandoned_ack_ids.contains(&4));
}

fn datagram(kind: u32, size: u32, payload: &[u8]) -> Vec<u8> {
    let mut bytes = Header { kind, size }.as_bytes().to_vec();
    bytes.extend_from_slice(payload);
    bytes
}

#[test]
fn datagrams_are_read_as_what_they_hold() {
    assert_eq!(
        decode_datagram(&datagram(CRASH_ACK, 0, &[])).unwrap(),
        ResponseFrame::CrashAck
    );
    assert_eq!(
        decode_datagram(&datagram(PONG, 0, &[])).unwrap(),
        ResponseFrame::Pong
    );
    let answer = encode_acked_user_response(u64::MAX, MessageAck::Rejected);
    assert_eq!(
        decode_datagram(&datagram(ACKED_USER_RESPONSE, 9, &answer)).unwrap(),
        ResponseFrame::Ack {
            request_id: u64::MAX,
            status: MessageAck::Rejected
        }
    );
}

#[test]
fn malformed_datagrams_are_refused() {
    assert!(matches!(
        decode_datagram(&[]),
        Err(Error::Io(err)) if err.kind == ErrorKind::UnexpectedEof
            && err.message == "the peer closed the connection while a response was pending"
    ));
    assert!(matches!(
        decode_datagram(&[0; 7]),
        Err(Error::ProtocolError("received an undersized response frame"))
    ));
    assert!(matches!(
        decode_datagram(&datagram(99, 0, &[])),
        Err(Error::ProtocolError("received an unknown response kind"))
    ));
    assert!(matches!(
        decode_datagram(&datagram(PONG, 1, &[0])),
        Err(Error::ProtocolError("received a response with an unexpected size"))
    ));
    assert!(matches!(
        decode_datagram(&datagram(PONG, 0, &[0])),
        Err(Error::ProtocolError("received a malformed response frame"))
    ));
    assert!(matches!(
        decode_datagram(&datagram(ACKED_USER_RESPONSE, 9, &[0; 8])),
        Err(Error::ProtocolError("received a malformed response frame"))
    ));
    assert!(matches!(
        decode_datagram(&datagram(ACKED_USER_RESPONSE, 9, &[3; 9])),
        Err(Error::ProtocolError("acknowledged user response has an unknown status"))
    ));
}

#[test]
fn every_response_kind_has_one_size() {
    let size = |kind, size| response_payload_size(Header { kind, size });
    assert_eq!(size(CRASH_ACK, 0).unwrap(), 0);
    assert_eq!(size(PONG, 0).unwrap(), 0);
    assert_eq!(size(ACKED_USER_RESPONSE, 9).unwrap(), 9);
    assert!(size(ACKED_USER_RESPONSE, 8).is_err());
    assert!(size(CRASH_ACK, 1).is_err());
    assert!(size(2, 0).is_err());
    assert!(matches!(
        decode_response_frame(2, &[]),
        Err(Error::ProtocolError("received an unknown response kind"))
    ));
    assert!(matches!(
        decode_response_frame(ACKED_USER_RESPONSE, &[]),
        Err(Error::ProtocolError("acknowledged user response has an unexpected size"))
    ));
}

#[test]
fn a_peer_that_dies_mid_response_is_told_apart() {
    let mut io = ClientIo::new();
    assert_eq!(io.capacity(Transport::SeqPacket), 18);
    assert_eq!(io.capacity(Transport::ByteStream), 8);
    assert!(matches!(
        io.recv_next_frame(Transport::ByteStream, &[]),
        Err(Error::Io(err)) if err.message
            == "the peer closed the connection while a response was pending"
    ));
    assert_eq!(io.recv_next_frame(Transport::ByteStream, &[1]).unwrap(), None);
    assert_eq!(io.capacity(Transport::ByteStream), 7);
    assert!(matches!(
        io.recv_next_frame(Transport::ByteStream, &[]),
        Err(Error::Io(err)) if err.kind == ErrorKind::UnexpectedEof
            && err.message == "the peer closed the connection mid-response"
    ));
}
