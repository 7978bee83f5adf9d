//! Loopback coverage for acknowledged user messages: a client only learns that the server took
//! ownership of a message by asking for, and receiving, the handler's verdict.
//!
//! The server answers in memory, and the clock goes on only while the client waits.

use minidumper::client::{Action, Client, Event, Exchange};
use minidumper::client_io::Transport;
use minidumper::error::{Error, ErrorKind, IoError};
use minidumper::socket_name::SocketName;
use minidumper::timeout::{ReadTimeout, Timeout};
use minidumper::wire::{
    decode_acked_user_message, encode_acked_user_response, Header, MessageAck,
    ACKED_USER_MESSAGE, ACKED_USER_RESPONSE, CRASH, CRASH_ACK, HEADER_SIZE, PING, PONG, USER,
};
use std::time::Duration;

/// What the server does with the messages it gets.
#[derive(Copy, Clone)]
enum Handler {
    /// Answers acknowledged messages with a canned status, after a delay.
    Ack { status: MessageAck, delay: Duration },
    /// Does not know about acknowledged messages.
    Legacy,
}

struct TestServer {
    name: String,
    handler: Handler,
    transport: Transport,
    /// How many bytes a write takes, and a read delivers, at most.
    chunk: usize,
    running: bool,
    now: Duration,
    deadline: Option<Duration>,
    read_timeout: ReadTimeout,
    incoming: Vec<u8>,
    /// What is on its way to the client, and when it gets there.
    outgoing: Vec<(Duration, Vec<u8>)>,
    messages: Vec<(u32, Vec<u8>)>,
    dumps: Vec<Vec<u8>>,
}

fn io_error(kind: ErrorKind, code: i32) -> IoError {
    IoError {
        kind,
        code: Some(code),
        message: String::from("loopback"),
    }
}

fn timeout(duration: Duration) -> Timeout {
    Timeout {
        secs: duration.as_secs(),
        nanos: duration.subsec_nanos(),
    }
}

impl TestServer {
    fn start(test: &str, handler: Handler) -> TestServer {
        TestServer {
            name: format!("minidumper-{test}"),
            handler,
            transport: Transport::SeqPacket,
            chunk: usize::MAX,
            running: true,
            now: Duration::ZERO,
            deadline: None,
            read_timeout: ReadTimeout::of(None),
            incoming: Vec::new(),
            outgoing: Vec::new(),
            messages: Vec::new(),
            dumps: Vec::new(),
        }
    }

    fn start_stream(test: &str, handler: Handler, chunk: usize) -> TestServer {
        let mut server = TestServer::start(test, handler);
        server.transport = Transport::ByteStream;
        server.chunk = chunk;
        server
    }

    fn connect(&self) -> Client {
        match self.transport {
            Transport::SeqPacket => {
                let (address, client) = Client::with_name(SocketName::path(&self.name)).unwrap();
                assert_eq!(address.as_pathname().unwrap().to_str(), Some(self.name.as_str()));
                client
            }
            Transport::ByteStream => Client::new(Transport::ByteStream),
        }
    }

    fn stop(&mut self) {
        self.running = false;
    }

    fn reply(&mut self, delay: Duration, kind: u32, payload: &[u8]) {
        let header = Header {
            kind,
            size: payload.len() as u32,
        };
        let mut frame = header.as_bytes().to_vec();
        frame.extend_from_slice(payload);
        self.outgoing.push((self.now + delay, frame));
    }

    fn handle(&mut self, kind: u32, payload: Vec<u8>) {
        match kind {
            CRASH => {
                self.dumps.push(payload);
                self.reply(Duration::ZERO, CRASH_ACK, &[]);
            }
            PING => self.reply(Duration::ZERO, PONG, &[]),
            ACKED_USER_MESSAGE => {
                let (request_id, user_kind, message) = decode_acked_user_message(payload).unwrap();
                self.messages.push((user_kind, message));
                let (status, delay) = match self.handler {
                    Handler::Ack { status, delay } => (status, delay),
                    Handler::Legacy => (MessageAck::Unsupported, Duration::ZERO),
                };
                let answer = encode_acked_user_response(request_id, status);
                self.reply(delay, ACKED_USER_RESPONSE, &answer);
            }
            _ => self.messages.push((kind - USER, payload)),
        }
    }

    fn write(&mut self, header: &[u8], payload: &[u8]) -> Result<usize, IoError> {
        if !self.running {
            return Err(io_error(ErrorKind::Other, 32));
        }
        let mut bytes = header.to_vec();
        bytes.extend_from_slice(payload);
        bytes.truncate(self.chunk);
        self.incoming.extend_from_slice(&bytes);
        while self.incoming.len() >= HEADER_SIZE {
            let header = Header::from_bytes(&self.incoming[..HEADER_SIZE]).unwrap();
            let end = HEADER_SIZE + header.size as usize;
            if self.incoming.len() < end {
                break;
            }
            let rest = self.incoming.split_off(end);
            let payload = self.incoming.split_off(HEADER_SIZE);
            self.incoming = rest;
            self.handle(header.kind, payload);
        }
        Ok(bytes.len())
    }

    fn read(&mut self, capacity: usize) -> Result<Vec<u8>, IoError> {
        if self.outgoing.is_empty() {
            if !self.running {
                return Ok(Vec::new());
            }
            assert!(self.read_timeout != ReadTimeout::of(None), "nobody will ever answer");
        }
        let limit = if self.read_timeout == ReadTimeout::of(None) {
            None
        } else {
            let secs = Duration::from_secs(self.read_timeout.tv_sec as u64);
            Some(self.now + secs + Duration::from_micros(self.read_timeout.tv_usec as u64))
        };
        let due = self.outgoing.first().map(|(due, _)| *due);
        match (due, limit) {
            (Some(due), None) => self.now = self.now.max(due),
            (Some(due), Some(limit)) if due <= limit => self.now = self.now.max(due),
            (_, Some(limit)) => {
                self.now = limit;
                return Err(io_error(ErrorKind::WouldBlock, 11));
            }
            (None, None) => unreachable!(),
        }
        let (_, frame) = &mut self.outgoing[0];
        let mut bytes = frame.clone();
        let take = frame.len().min(capacity).min(self.chunk);
        bytes.truncate(take);
        match self.transport {
            Transport::SeqPacket => frame.clear(),
            Transport::ByteStream => {
                frame.drain(..take);
            }
        }
        if frame.is_empty() {
            self.outgoing.remove(0);
        }
        Ok(bytes)
    }

    fn drive(
        &mut self,
        client: &mut Client,
        exchange: Result<Exchange<'_>, Error>,
    ) -> Result<Option<MessageAck>, Error> {
        let mut exchange = exchange?;
        self.deadline = None;
        while !exchange.is_done() {
            let received;
            let event = match client.action(&exchange) {
                Action::Send(header, payload) => Event::Sent(self.write(header, payload)),
                Action::SetDeadline(timeout) => {
                    assert!(self.deadline.is_none());
                    let left = Duration::new(timeout.secs, timeout.nanos);
                    self.deadline = self.now.checked_add(left);
                    Event::DeadlineSet(self.deadline.is_some())
                }
                Action::CheckDeadline => {
                    let left = self.deadline.unwrap().checked_sub(self.now);
                    Event::Remaining(left.map(timeout))
                }
                Action::SetReadTimeout(read_timeout) => {
                    self.read_timeout = read_timeout;
                    Event::ReadTimeoutSet(Ok(()))
                }
                Action::Receive(capacity) => match self.read(capacity) {
                    Ok(bytes) => {
                        received = bytes;
                        Event::Received(Ok(&received))
                    }
                    Err(err) => Event::Received(Err(err)),
                },
                Action::Finish => unreachable!(),
            };
            client.step(&mut exchange, event);
        }
        if client.io().usable {
            assert_eq!(self.read_timeout, ReadTimeout::of(None));
        }
        exchange.finish()
    }

    fn send_message_acked(
        &mut self,
        client: &mut Client,
        kind: u32,
        buf: &[u8],
        duration: Duration,
    ) -> Result<MessageAck, Error> {
        let exchange = client.send_message_acked(kind, buf, timeout(duration));
        Ok(self.drive(client, exchange)?.unwrap())
    }

    fn send_message(&mut self, client: &mut Client, kind: u32, buf: &[u8]) -> Result<(), Error> {
        let exchange = client.send_message(kind, buf);
        assert_eq!(self.drive(client, exchange)?, None);
        Ok(())
    }

    fn ping(&mut self, client: &mut Client) -> Result<(), Error> {
        let exchange = client.ping();
        assert_eq!(self.drive(client, exchange)?, None);
        Ok(())
    }
}

#[test]
fn acknowledged_message_returns_the_handler_verdict() {
    for status in [MessageAck::Accepted, MessageAck::Rejected] {
        let mut server = TestServer::start(
            "verdict",
            Handler::Ack {
                status,
                delay: Duration::ZERO,
            },
        );
        let mut client = server.connect();

        assert_eq!(
            server
                .send_message_acked(&mut client, 42, b"payload", Duration::from_secs(5))
                .unwrap(),
            status
        );

        drop(client);
        server.stop();
        assert_eq!(&*server.messages, &[(42, b"payload".to_vec())]);
    }
}

/// A handler that does not know about acknowledged messages must still receive the message, and must
/// never be reported as having accepted it.
#[test]
fn legacy_handler_receives_the_message_and_answers_unsupported() {
    let mut server = TestServer::start("unsupported", Handler::Legacy);
    let mut client = server.connect();

    assert_eq!(
        server
            .send_message_acked(&mut client, 7, b"legacy", Duration::from_secs(5))
            .unwrap(),
        MessageAck::Unsupported
    );

    drop(client);
    server.stop();
    assert_eq!(&*server.messages, &[(7, b"legacy".to_vec())]);
}

/// Panic metadata carries a full backtrace, so the payload has to survive being split across many
/// reads.
#[test]
fn acknowledged_message_preserves_a_large_payload() {
    let handler = Handler::Ack {
        status: MessageAck::Accepted,
        delay: Duration::ZERO,
    };
    for mut server in [
        TestServer::start("large", handler),
        TestServer::start_stream("large", handler, 1000),
    ] {
        let mut client = server.connect();
        let payload = vec![0x5a; 168 * 1024];

        assert_eq!(
            server
                .send_message_acked(&mut client, 8, &payload, Duration::from_secs(10))
                .unwrap(),
            MessageAck::Accepted
        );

        drop(client);
        server.stop();
        assert_eq!(&*server.messages, &[(8, payload)]);
    }
}

#[test]
fn reserved_kinds_are_rejected_before_reaching_the_wire() {
    let mut server = TestServer::start("reserved", Handler::Legacy);
    let mut client = server.connect();

    let reserved = u32::MAX - 4;
    assert!(server.send_message(&mut client, reserved, b"nope").is_err());
    assert!(server
        .send_message_acked(&mut client, reserved, b"nope", Duration::from_secs(5))
        .is_err());
    assert!(client.io().usable);

    drop(client);
    server.stop();
    assert!(server.incoming.is_empty() && server.messages.is_empty());
}

#[test]
fn legacy_send_message_and_ping_still_work() {
    let mut server = TestServer::start(
        "legacy-apis",
        Handler::Ack {
            status: MessageAck::Accepted,
            delay: Duration::ZERO,
        },
    );
    let mut client = server.connect();

    server
        .send_message(&mut client, 9, b"fire-and-forget")
        .unwrap();
    server.ping(&mut client).unwrap();

    drop(client);
    server.stop();
    assert_eq!(&*server.messages, &[(9, b"fire-and-forget".to_vec())]);
}

/// The scenario the protocol is built around: the caller gives up, the response arrives late anyway,
/// and the next wait on the socket must discard it instead of mistaking it for its own answer.
#[test]
fn a_late_response_is_discarded_by_the_next_wait() {
    let mut server = TestServer::start(
        "late",
        Handler::Ack {
            status: MessageAck::Accepted,
            delay: Duration::from_millis(300),
        },
    );
    let mut client = server.connect();

    let err = server
        .send_message_acked(&mut client, 10, b"delayed", Duration::from_millis(20))
        .unwrap_err();
    assert!(
        matches!(&err, Error::Io(err) if err.kind == ErrorKind::TimedOut),
        "expected a timeout, got {err:?}"
    );
    assert!(client.io().abandoned_ack_ids.contains(&1));

    // The handler's late response is drained before this PONG.
    server.ping(&mut client).unwrap();
    assert!(client.io().abandoned_ack_ids.is_empty());

    drop(client);
    server.stop();
    assert_eq!(&*server.messages, &[(10, b"delayed".to_vec())]);
}

#[test]
fn a_disconnected_server_fails_the_wait_instead_of_hanging() {
    let mut server = TestServer::start("disconnect", Handler::Legacy);
    let mut client = server.connect();
    server.stop();

    assert!(server
        .send_message_acked(&mut client, 11, b"gone", Duration::from_secs(5))
        .is_err());
    assert!(!client.io().usable);
}

#[test]
fn a_late_response_does_not_hide_the_crash_ack_of_a_byte_stream() {
    let handler = Handler::Ack {
        status: MessageAck::Rejected,
        delay: Duration::from_millis(300),
    };
    let mut server = TestServer::start_stream("late-stream", handler, 5);
    let mut client = server.connect();

    assert!(server
        .send_message_acked(&mut client, 10, b"delayed", Duration::from_millis(20))
        .is_err());
    let exchange = client.request_dump_of(b"context");
    assert_eq!(server.drive(&mut client, exchange).unwrap(), None);
    assert_eq!(&*server.dumps, &[b"context".to_vec()]);
    assert!(client.io().usable);
}

#[test]
fn a_discarded_response_does_not_extend_the_wait() {
    let handler = Handler::Ack {
        status: MessageAck::Accepted,
        delay: Duration::from_secs(3),
    };
    let mut server = TestServer::start("discarded", handler);
    let mut client = server.connect();

    for _ in 0..3 {
        assert!(server
            .send_message_acked(&mut client, 1, b"", Duration::from_secs(1))
            .is_err());
    }
    assert!(server.now < Duration::from_millis(3001));
    // The first response arrived during the third wait and was discarded there.
    assert_eq!(client.io().abandoned_ack_ids.len(), 2);
    assert!(!client.io().abandoned_ack_ids.contains(&1));
    server.ping(&mut client).unwrap();
    assert!(client.io().abandoned_ack_ids.is_empty());
}

/// A response of which only a part arrives before the deadline is completed by the next wait.
#[test]
fn a_dribbling_response_does_not_extend_the_wait() {
    let handler = Handler::Ack {
        status: MessageAck::Accepted,
        delay: Duration::from_secs(60),
    };
    let mut server = TestServer::start_stream("dribble", handler, 4);
    let mut client = server.connect();
    let exchange = client.send_message_acked(1, b"", timeout(Duration::from_secs(2)));
    let mut late = {
        let mut exchange = exchange.unwrap();
        while let Action::Send(header, payload) = client.action(&exchange) {
            let event = Event::Sent(server.write(header, payload));
            client.step(&mut exchange, event);
        }
        let (_, frame) = server.outgoing.remove(0);
        for part in 0..3 {
            let piece = frame[part as usize..][..1].to_vec();
            server.outgoing.push((Duration::from_millis(900) * part, piece));
        }
        let err = server.drive(&mut client, Ok(exchange)).unwrap_err();
        assert!(matches!(err, Error::Io(err) if err.kind == ErrorKind::TimedOut));
        frame
    };
    assert!(server.now <= Duration::from_millis(2001));
    assert!(client.io().usable && client.io().recv.has_partial_frame());

    server.outgoing.push((server.now, late.split_off(3)));
    server.ping(&mut client).unwrap();
    assert!(client.io().abandoned_ack_ids.is_empty());
}

#[test]
fn a_zero_timeout_still_is_a_deadline() {
    let handler = Handler::Ack {
        status: MessageAck::Accepted,
        delay: Duration::from_secs(60),
    };
    let mut server = TestServer::start("zero", handler);
    let mut client = server.connect();
    assert!(server
        .send_message_acked(&mut client, 1, b"", Duration::ZERO)
        .is_err());
    assert_eq!(server.now, Duration::from_micros(1));
}

/// However many callers gave up, the crash request gets its answer behind all the late responses.
#[test]
fn many_late_responses_do_not_hide_the_crash_ack() {
    let handler = Handler::Ack {
        status: MessageAck::Accepted,
        delay: Duration::from_secs(60),
    };
    for mut server in [
        TestServer::start("many", handler),
        TestServer::start_stream("many", handler, 1),
        TestServer::start_stream("many", handler, 7),
    ] {
        let mut client = server.connect();
        for id in 1..=5 {
            assert!(server
                .send_message_acked(&mut client, 1, b"m", Duration::from_millis(5))
                .is_err());
            assert!(client.io().abandoned_ack_ids.contains(&id));
        }
        assert_eq!(server.outgoing.len(), 5);

        let exchange = client.request_dump_of(b"crash context");
        assert_eq!(server.drive(&mut client, exchange).unwrap(), None);
        assert_eq!(&*server.dumps, &[b"crash context".to_vec()]);
        assert!(client.io().usable && client.io().abandoned_ack_ids.is_empty());
        assert!(!client.io().recv.has_partial_frame());
        server.ping(&mut client).unwrap();
    }
}

#[test]
fn messages_go_out_whole_and_in_order() {
    for chunk in 1..12 {
        let mut server = TestServer::start_stream("whole", Handler::Legacy, chunk);
        let mut client = server.connect();
        for (kind, buf) in [(0, &b""[..]), (7, &b"seven"[..]), (0xffff_fff9, &b"last"[..])] {
            server.send_message(&mut client, kind, buf).unwrap();
            assert!(server.incoming.is_empty());
        }
        assert_eq!(
            &*server.messages,
            &[
                (0, Vec::new()),
                (7, b"seven".to_vec()),
                (0xffff_fff9, b"last".to_vec())
            ]
        );
    }
}
