use crash_context::CrashContext;
use minidumper::client::{
    busy_error, crash_request_lock_timeout, Action, Client, Event, Exchange,
};
use minidumper::client_io::Transport;
use minidumper::error::{timeout_error, Error, ErrorKind, IoError};
use minidumper::timeout::{ReadTimeout, Timeout};
use minidumper::wire::{
    encode_acked_user_response, DumpRequest, Header, MessageAck, ProtoPointer,
    ACKED_USER_MESSAGE, ACKED_USER_RESPONSE, CRASH, PING, PONG, USER,
};

fn failure(kind: ErrorKind) -> IoError {
    IoError {
        kind,
        code: Some(5),
        message: String::from("failure"),
    }
}

fn unsent(client: &Client, exchange: &Exchange<'_>) -> Vec<u8> {
    match client.action(exchange) {
        Action::Send(header, payload) => {
            let mut bytes = header.to_vec();
            bytes.extend_from_slice(payload);
            bytes
        }
        _ => panic!("nothing to send"),
    }
}

fn send_all(client: &mut Client, exchange: &mut Exchange<'_>) -> Vec<u8> {
    let bytes = unsent(client, exchange);
    client.step(exchange, Event::Sent(Ok(bytes.len())));
    bytes
}

fn second(secs: u64) -> Timeout {
    Timeout { secs, nanos: 0 }
}

/// An acknowledged message that waits for its answer.
fn waiting(client: &mut Client) -> Exchange<'static> {
    let mut exchange = client.send_message_acked(1, b"m", second(5)).unwrap();
    send_all(client, &mut exchange);
    assert!(matches!(client.action(&exchange), Action::SetDeadline(Timeout { secs: 5, nanos: 0 })));
    client.step(&mut exchange, Event::DeadlineSet(true));
    receiving(client, &mut exchange);
    exchange
}

fn receiving(client: &mut Client, exchange: &mut Exchange<'_>) {
    assert!(matches!(client.action(exchange), Action::CheckDeadline));
    client.step(exchange, Event::Remaining(Some(second(4))));
    assert!(matches!(
        client.action(exchange),
        Action::SetReadTimeout(ReadTimeout { tv_sec: 4, tv_usec: 0 })
    ));
    client.step(exchange, Event::ReadTimeoutSet(Ok(())));
    assert!(matches!(client.action(exchange), Action::Receive(18)));
}

/// Lifts the read timeout and ends the request.
fn over(client: &mut Client, mut exchange: Exchange<'_>) -> Result<Option<MessageAck>, Error> {
    assert!(matches!(
        client.action(&exchange),
        Action::SetReadTimeout(ReadTimeout { tv_sec: 0, tv_usec: 0 })
    ));
    client.step(&mut exchange, Event::ReadTimeoutSet(Ok(())));
    assert!(matches!(client.action(&exchange), Action::Finish));
    assert!(exchange.is_done());
    exchange.finish()
}

fn answer(request_id: u64, status: MessageAck) -> Vec<u8> {
    let header = Header {
        kind: ACKED_USER_RESPONSE,
        size: 9,
    };
    let mut bytes = header.as_bytes().to_vec();
    bytes.extend_from_slice(&encode_acked_user_response(request_id, status));
    bytes
}

#[test]
fn crash_requests_carry_the_crash_context() {
    let bytes = vec![7u8; std::mem::size_of::<CrashContext>()];
    let context = CrashContext::from_bytes(&bytes).unwrap();
    let client = Client::new(Transport::SeqPacket);
    let exchange = client.request_dump(&context).unwrap();
    let frame = unsent(&client, &exchange);
    assert_eq!(
        Header::from_bytes(&frame[..8]).unwrap(),
        Header {
            kind: CRASH,
            size: bytes.len() as u32
        }
    );
    assert_eq!(&frame[8..], context.as_bytes());
    assert_eq!(frame[8], 7);
}

#[test]
fn crash_requests_do_not_begin_on_a_retired_connection() {
    let bytes = vec![7u8; std::mem::size_of::<CrashContext>()];
    let context = CrashContext::from_bytes(&bytes).unwrap();
    let mut client = Client::new(Transport::SeqPacket);
    let mut exchange = client.request_dump(&context).unwrap();
    client.step(&mut exchange, Event::Sent(Ok(0)));
    assert!(matches!(
        exchange.finish(),
        Err(Error::Io(err)) if err.kind == ErrorKind::WriteZero
    ));
    assert!(matches!(
        client.request_dump(&context),
        Err(Error::ProtocolError("the IPC response stream is unusable"))
    ));
}

/// A crash context may lie where it does for a reason, so it is written from there.
#[test]
fn payloads_are_written_from_where_they_lie() {
    let client = Client::new(Transport::SeqPacket);
    let context = vec![1u8; 100];
    let exchange = client.request_dump_of(&context).unwrap();
    match client.action(&exchange) {
        Action::Send(_, payload) => assert!(std::ptr::eq(payload, context.as_slice())),
        _ => panic!("nothing to send"),
    }
}

#[test]
fn crash_requests_can_point_into_memory() {
    let mut request = DumpRequest {
        exception_pointers: ProtoPointer::Wide(0x0102_0304_0506_0708),
        process_id: 9,
        thread_id: 10,
        exception_code: -1073741819,
    };
    let client = Client::new(Transport::ByteStream);
    let frame = unsent(&client, &client.request_dump_at(&request).unwrap());
    let mut expected = Header { kind: CRASH, size: 20 }.as_bytes().to_vec();
    expected.extend_from_slice(&0x0102_0304_0506_0708u64.to_ne_bytes());
    expected.extend_from_slice(&9u32.to_ne_bytes());
    expected.extend_from_slice(&10u32.to_ne_bytes());
    expected.extend_from_slice(&(-1073741819i32).to_ne_bytes());
    assert_eq!(frame, expected);

    request.exception_pointers = ProtoPointer::Narrow(0x0102_0304);
    let encoded = request.encode();
    assert_eq!(encoded.len(), 16);
    assert_eq!(&encoded[..4], &0x0102_0304u32.to_ne_bytes());
}

#[test]
fn a_crash_request_gives_up_on_a_busy_client() {
    assert_eq!(crash_request_lock_timeout(), second(5));
    assert!(matches!(
        busy_error(),
        Error::ProtocolError("the IPC client was still busy when the crash request arrived")
    ));
}

#[test]
fn acknowledged_messages_carry_their_id_and_kind() {
    let mut client = Client::new(Transport::SeqPacket);
    for id in 1..4u64 {
        let exchange = client.send_message_acked(6, b"abc", second(1)).unwrap();
        let mut expected = Header {
            kind: ACKED_USER_MESSAGE,
            size: 15,
        }
        .as_bytes()
        .to_vec();
        expected.extend_from_slice(&id.to_ne_bytes());
        expected.extend_from_slice(&6u32.to_ne_bytes());
        expected.extend_from_slice(b"abc");
        assert_eq!(unsent(&client, &exchange), expected);
    }
}

#[test]
fn plain_messages_end_with_their_frame() {
    let mut client = Client::new(Transport::SeqPacket);
    let mut exchange = client.send_message(3, b"x").unwrap();
    let frame = send_all(&mut client, &mut exchange);
    assert_eq!(
        Header::from_bytes(&frame[..8]).unwrap(),
        Header { kind: USER + 3, size: 1 }
    );
    assert!(matches!(client.action(&exchange), Action::Finish));
    assert!(matches!(exchange.finish(), Ok(None)));
}

#[test]
fn pings_wait_without_a_deadline() {
    let mut client = Client::new(Transport::SeqPacket);
    let mut exchange = client.ping().unwrap();
    let frame = send_all(&mut client, &mut exchange);
    assert_eq!(frame, Header { kind: PING, size: 0 }.as_bytes());
    assert!(matches!(
        client.action(&exchange),
        Action::SetReadTimeout(ReadTimeout { tv_sec: 0, tv_usec: 0 })
    ));
    client.step(&mut exchange, Event::ReadTimeoutSet(Ok(())));
    let pong = Header { kind: PONG, size: 0 }.as_bytes();
    client.step(&mut exchange, Event::Received(Ok(&pong)));
    assert!(matches!(over(&mut client, exchange), Ok(None)));
    assert!(client.io().usable);
}

#[test]
fn a_verdict_ends_the_wait() {
    let mut client = Client::new(Transport::SeqPacket);
    let mut exchange = waiting(&mut client);
    client.step(&mut exchange, Event::Received(Ok(&answer(1, MessageAck::Rejected))));
    assert!(matches!(
        over(&mut client, exchange),
        Ok(Some(MessageAck::Rejected))
    ));
    assert!(client.io().usable && client.io().abandoned_ack_ids.is_empty());
}

#[test]
fn transient_failures_are_read_past_until_the_deadline() {
    for kind in [ErrorKind::WouldBlock, ErrorKind::TimedOut, ErrorKind::Interrupted] {
        let mut client = Client::new(Transport::SeqPacket);
        let mut exchange = waiting(&mut client);
        client.step(&mut exchange, Event::Received(Err(failure(kind))));
        receiving(&mut client, &mut exchange);
        client.step(&mut exchange, Event::Received(Err(failure(kind))));
        client.step(&mut exchange, Event::Remaining(None));
        let expected = match timeout_error() {
            Error::Io(err) => err,
            _ => panic!(),
        };
        assert!(matches!(
            over(&mut client, exchange),
            Err(Error::Io(err)) if err.kind == ErrorKind::TimedOut
                && err.kind == expected.kind
                && err.message == expected.message
                && err.message == "timed out waiting for an IPC response"
        ));
        assert!(client.io().usable);
        assert!(client.io().abandoned_ack_ids.contains(&1));
    }
}

#[test]
fn an_interrupted_read_without_a_deadline_fails() {
    let mut client = Client::new(Transport::SeqPacket);
    let mut exchange = client.ping().unwrap();
    send_all(&mut client, &mut exchange);
    client.step(&mut exchange, Event::ReadTimeoutSet(Ok(())));
    client.step(&mut exchange, Event::Received(Err(failure(ErrorKind::Interrupted))));
    assert!(matches!(
        over(&mut client, exchange),
        Err(Error::Io(err)) if err.kind == ErrorKind::Interrupted
    ));
    assert!(!client.io().usable);
}

#[test]
fn a_failed_write_retires_the_connection() {
    let mut client = Client::new(Transport::ByteStream);
    let mut exchange = client.send_message_acked(1, b"m", second(5)).unwrap();
    client.step(&mut exchange, Event::Sent(Ok(3)));
    client.step(&mut exchange, Event::Sent(Err(failure(ErrorKind::Other))));
    assert!(matches!(
        exchange.finish(),
        Err(Error::Io(err)) if err.code == Some(5)
    ));
    assert!(!client.io().usable);
    assert!(client.io().abandoned_ack_ids.contains(&1));
    assert!(matches!(
        client.ping(),
        Err(Error::ProtocolError("the IPC response stream is unusable"))
    ));
    assert!(client.send_message_acked(1, b"m", second(5)).is_err());
    assert_eq!(client.io().abandoned_ack_ids.len(), 1);
}

#[test]
fn a_deadline_can_overflow() {
    let mut client = Client::new(Transport::SeqPacket);
    let mut exchange = client.send_message_acked(1, b"m", second(u64::MAX)).unwrap();
    send_all(&mut client, &mut exchange);
    client.step(&mut exchange, Event::DeadlineSet(false));
    assert!(matches!(
        exchange.finish(),
        Err(Error::ProtocolError("the response deadline overflowed"))
    ));
    assert!(client.io().usable);
    assert!(client.io().abandoned_ack_ids.contains(&1));
}

#[test]
fn a_read_timeout_that_cannot_be_set_fails_the_wait() {
    let mut client = Client::new(Transport::SeqPacket);
    let mut exchange = client.ping().unwrap();
    send_all(&mut client, &mut exchange);
    client.step(
        &mut exchange,
        Event::ReadTimeoutSet(Err(failure(ErrorKind::Other))),
    );
    assert!(matches!(over(&mut client, exchange), Err(Error::Io(_))));
    assert!(client.io().usable);
}

#[test]
fn a_read_timeout_that_cannot_be_lifted_retires_the_connection() {
    let mut client = Client::new(Transport::SeqPacket);
    let mut exchange = waiting(&mut client);
    client.step(&mut exchange, Event::Received(Ok(&answer(1, MessageAck::Accepted))));
    client.step(
        &mut exchange,
        Event::ReadTimeoutSet(Err(failure(ErrorKind::Other))),
    );
    assert!(matches!(exchange.finish(), Err(Error::Io(err)) if err.code == Some(5)));
    assert!(!client.io().usable);
    assert!(client.io().abandoned_ack_ids.contains(&1));
}

#[test]
fn the_first_failure_of_a_wait_is_the_one_reported() {
    let mut client = Client::new(Transport::SeqPacket);
    let mut exchange = waiting(&mut client);
    client.step(&mut exchange, Event::Received(Ok(&answer(2, MessageAck::Accepted))));
    client.step(
        &mut exchange,
        Event::ReadTimeoutSet(Err(failure(ErrorKind::Other))),
    );
    assert!(matches!(
        exchange.finish(),
        Err(Error::ProtocolError("received an unexpected IPC response"))
    ));
}

#[test]
fn a_wait_does_not_begin_on_a_retired_connection() {
    let mut client = Client::new(Transport::SeqPacket);
    let mut exchange = client.ping().unwrap();
    let mut other = client.send_message(1, b"x").unwrap();
    client.step(&mut other, Event::Sent(Err(failure(ErrorKind::Other))));
    assert!(other.finish().is_err());
    send_all(&mut client, &mut exchange);
    assert!(matches!(
        over(&mut client, exchange),
        Err(Error::ProtocolError("the IPC response stream is unusable"))
    ));
}

#[test]
fn an_event_out_of_turn_changes_nothing() {
    let mut client = Client::new(Transport::SeqPacket);
    let mut exchange = waiting(&mut client);
    client.step(&mut exchange, Event::DeadlineSet(false));
    client.step(&mut exchange, Event::Sent(Ok(1)));
    client.step(&mut exchange, Event::Remaining(None));
    assert!(matches!(client.action(&exchange), Action::Receive(18)));
    assert!(client.io().usable);
}

#[test]
fn read_timeouts_round_down_but_stay_deadlines() {
    let of = |secs, nanos| {
        let timeout = ReadTimeout::of(Some(Timeout { secs, nanos }));
        (timeout.tv_sec, timeout.tv_usec)
    };
    assert_eq!(ReadTimeout::of(None), ReadTimeout { tv_sec: 0, tv_usec: 0 });
    assert_eq!(of(0, 0), (0, 1));
    assert_eq!(of(0, 999), (0, 1));
    assert_eq!(of(0, 1999), (0, 1));
    assert_eq!(of(2, 999), (2, 0));
    assert_eq!(of(2, 345_678_901), (2, 345_678));
    assert_eq!(of(u64::MAX, 999_999_999), (libc::time_t::MAX, 999_999));
}
