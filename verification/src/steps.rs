//! What each event does to a request and to the client, told from the event alone.
use crate::bytes::{u32_bytes, u64_bytes};
use crate::client::{
    begin, begin_acked, begin_message, next, next_id, ClientView, Event, ExchangeView, StageView,
};
use crate::client_io::{law_every_response_goes_one_of_three_ways, IoView, Transport};
use crate::error::{ErrorKind, ErrorView, IoError};
use crate::laws::{law_requests_stay_well_formed, run, socket_timeout};
use crate::outgoing::{law_frame_layout, law_write_failures, law_writes_leave_the_rest};
use crate::response::{
    frame_of_datagram, law_datagram_read_back, law_datagrams_are_refused_for_what_is_wrong,
    ExpectedResponse, ResponseFrame,
};
use crate::stream::{
    law_part_of_a_response_is_held, law_stream_holds_nothing_back, stream_step,
};
use crate::timeout::{law_reads_keep_to_the_deadline, ReadTimeout, Timeout};
use crate::wire::{acked_message_wire, law_acked_message_layout, MessageAck};
use vstd::prelude::*;

verus! {

/// On a usable connection a request begins, whatever its kind and its payload, as long as a `u32` can
/// give the size of the payload: with the frame of that kind and that payload to be written, and with
/// nothing written yet. It fails for nothing else.
pub proof fn law_requests_begin_on_usable_connections(
    io: IoView,
    kind: u32,
    payload: Seq<u8>,
    awaits: Option<ExpectedResponse>,
    timeout: Option<Timeout>,
)
    ensures
        io.usable && payload.len() <= u32::MAX ==> (begin(
            io,
            kind,
            payload,
            awaits,
            timeout,
        ) matches Ok(exchange) && {
            &&& exchange.unsent.len() == 8 + payload.len()
            &&& exchange.unsent.subrange(0, 4) == u32_bytes(kind)
            &&& exchange.unsent.subrange(4, 8) == u32_bytes(payload.len() as u32)
            &&& exchange.unsent.skip(8) == payload
            &&& exchange.awaits == awaits
            &&& exchange.timeout == timeout
            &&& exchange.stage is Sending
        }),
        !io.usable ==> begin(io, kind, payload, awaits, timeout) == Err::<ExchangeView, _>(
            ErrorView::Protocol("the IPC response stream is unusable"@),
        ),
        io.usable && payload.len() > u32::MAX ==> begin(io, kind, payload, awaits, timeout) == Err::<
            ExchangeView,
            _,
        >(ErrorView::Protocol("the payload is too large"@)),
{
    if payload.len() <= u32::MAX {
        law_frame_layout(kind, payload);
    }
}

/// On a usable connection a message of every kind below the reserved ones and of every size that a
/// `u32` can give is accepted, with its own frame to be written and no response to wait for. It is
/// rejected for a reserved kind, an unusable connection or a larger size, and for nothing else.
pub proof fn law_messages_are_accepted(io: IoView, kind: u32, buf: Seq<u8>)
    ensures
        begin_message(io, kind, buf) is Ok <==> kind < 0xffff_fffa && io.usable && buf.len()
            <= u32::MAX,
        begin_message(io, kind, buf) matches Ok(exchange) ==> {
            &&& exchange.unsent.len() == 8 + buf.len()
            &&& exchange.unsent.subrange(0, 4) == u32_bytes((4 + kind) as u32)
            &&& exchange.unsent.subrange(4, 8) == u32_bytes(buf.len() as u32)
            &&& exchange.unsent.skip(8) == buf
            &&& exchange.awaits is None
            &&& exchange.timeout is None
            &&& exchange.stage is Sending
        },
        begin_message(io, kind, buf) matches Err(err) ==> err == ErrorView::Protocol(
            if kind >= 0xffff_fffa {
                "user message kind is reserved"@
            } else if !io.usable {
                "the IPC response stream is unusable"@
            } else {
                "the payload is too large"@
            },
        ),
{
    if buf.len() <= u32::MAX && kind < 0xffff_fffa {
        law_frame_layout((4 + kind) as u32, buf);
    }
}

/// On a usable connection an acknowledged message of every kind below the reserved ones is accepted if
/// a `u32` can give its size with the twelve bytes ahead of it. Its frame holds the id, the kind and the
/// message, it waits for the verdict on that id, and no longer than it is told to. The next message
/// takes the next id.
pub proof fn law_acked_messages_are_accepted(
    client: ClientView,
    kind: u32,
    buf: Seq<u8>,
    timeout: Timeout,
)
    ensures
        ({
            let (begun, after) = begin_acked(client, kind, buf, timeout);
            let id = client.next_request_id;
            &&& begun is Ok <==> kind < 0xffff_fffa && client.io.usable && buf.len() + 12 <= u32::MAX
            &&& begun matches Ok(exchange) ==> {
                &&& exchange.unsent.len() == 20 + buf.len()
                &&& exchange.unsent.subrange(0, 4) == u32_bytes(0xffff_fffe)
                &&& exchange.unsent.subrange(4, 8) == u32_bytes((12 + buf.len()) as u32)
                &&& exchange.unsent.subrange(8, 16) == u64_bytes(id)
                &&& exchange.unsent.subrange(16, 20) == u32_bytes(kind)
                &&& exchange.unsent.skip(20) == buf
                &&& exchange.awaits == Some(ExpectedResponse::Ack(id))
                &&& exchange.timeout == Some(timeout)
                &&& exchange.stage is Sending
                &&& after.io == client.io
            }
            &&& begun matches Err(err) ==> err == ErrorView::Protocol(
                if kind >= 0xffff_fffa {
                    "user message kind is reserved"@
                } else if !client.io.usable {
                    "the IPC response stream is unusable"@
                } else {
                    "the payload is too large"@
                },
            )
            &&& kind >= 0xffff_fffa || !client.io.usable ==> after == client
            &&& kind < 0xffff_fffa && client.io.usable ==> after.next_request_id == (id + 1)
                % 0x1_0000_0000_0000_0000
            &&& kind < 0xffff_fffa && client.io.usable && begun is Err ==> after.io.abandoned
                == client.io.abandoned.insert(id)
            &&& after.io.usable == client.io.usable
            &&& after.io.received == client.io.received
            &&& after.transport == client.transport
        }),
{
    let id = client.next_request_id;
    let message = acked_message_wire(id, kind, buf);
    law_acked_message_layout(id, kind, buf);
    if message.len() <= u32::MAX {
        law_frame_layout(0xffff_fffe, message);
        if begin_acked(client, kind, buf, timeout).0 is Ok {
            let unsent = begin_acked(client, kind, buf, timeout).0->Ok_0.unsent;
            assert(unsent.subrange(8, 16) =~= message.subrange(0, 8));
            assert(unsent.subrange(16, 20) =~= message.subrange(8, 12));
            assert(unsent.skip(20) =~= message.skip(12));
        }
    }
}

/// Ids count up, and begin again behind the last.
pub proof fn law_ids_count_up(id: u64)
    ensures
        next_id(id) == (id + 1) % 0x1_0000_0000_0000_0000,
{
}

/// A client that has not been used yet is usable on either transport, has given up on nothing and
/// received nothing, and begins to count with one.
pub proof fn law_fresh_clients_are_usable(transport: Transport)
    ensures
        ClientView::fresh(transport).io.usable,
        ClientView::fresh(transport).io.received.len() == 0,
        forall|id: u64| !(#[trigger] ClientView::fresh(transport).io.abandoned.contains(id)),
        ClientView::fresh(transport).next_request_id == 1,
        ClientView::fresh(transport).transport == transport,
{
}

/// Whether the client is as before but for the caller of this request having given up, and for the use
/// of the connection, which is as given. Only of an acknowledged message is anything remembered.
pub open spec fn has_given_up(
    client: ClientView,
    exchange: ExchangeView,
    after: ClientView,
    usable: bool,
) -> bool {
    &&& after.io.usable == usable
    &&& after.io.received == client.io.received
    &&& after.next_request_id == client.next_request_id
    &&& after.transport == client.transport
    &&& exchange.awaits matches Some(ExpectedResponse::Ack(id)) ==> after.io.abandoned
        == client.io.abandoned.insert(id)
    &&& !(exchange.awaits matches Some(ExpectedResponse::Ack(_))) ==> after.io.abandoned
        == client.io.abandoned
}

/// Whether two stages of a request differ in nothing but how far it has come.
pub open spec fn is_same_request(one: ExchangeView, other: ExchangeView) -> bool {
    &&& one.unsent == other.unsent
    &&& one.awaits == other.awaits
    &&& one.timeout == other.timeout
}

/// No event changes what a request waits for or how long, the id of the next message, or the transport.
pub proof fn law_events_leave_the_request_what_it_is<'a>(
    client: ClientView,
    exchange: ExchangeView,
    event: Event<'a>,
)
    ensures
        next(client, exchange, event).1.awaits == exchange.awaits,
        next(client, exchange, event).1.timeout == exchange.timeout,
        next(client, exchange, event).0.next_request_id == client.next_request_id,
        next(client, exchange, event).0.transport == client.transport,
        !(exchange.stage is Sending) ==> next(client, exchange, event).1.unsent == exchange.unsent,
{
}

/// An event that answers another action than the one that is due changes nothing, nor does any event
/// once the request is over.
pub proof fn law_events_out_of_turn_change_nothing<'a>(
    client: ClientView,
    exchange: ExchangeView,
    event: Event<'a>,
)
    requires
        exchange.stage is Sending ==> !(event is Sent),
        exchange.stage is Deadline ==> !(event is DeadlineSet),
        exchange.stage is Clock ==> !(event is Remaining),
        exchange.stage is Arming ==> !(event is ReadTimeoutSet),
        exchange.stage is Receiving ==> !(event is Received),
        exchange.stage is Clearing ==> !(event is ReadTimeoutSet),
    ensures
        next(client, exchange, event) == (client, exchange),
{
}

/// A write that takes a part of the frame leaves the rest of it to be written, and the client as it
/// was.
pub proof fn law_a_short_write_leaves_the_rest<'a>(
    client: ClientView,
    exchange: ExchangeView,
    written: usize,
)
    requires
        exchange.stage is Sending,
        0 < written < exchange.unsent.len(),
    ensures
        ({
            let (after, on) = next(client, exchange, Event::<'a>::Sent(Ok(written)));
            &&& after == client
            &&& on.stage is Sending
            &&& exchange.unsent.take(written as int) + on.unsent == exchange.unsent
        }),
{
    law_writes_leave_the_rest(exchange.unsent, written);
}

/// A write that is interrupted by a signal changes nothing.
pub proof fn law_a_signal_does_not_stop_a_write<'a>(
    client: ClientView,
    exchange: ExchangeView,
    err: IoError,
)
    requires
        exchange.stage is Sending,
        exchange.unsent.len() > 0,
        err.kind == ErrorKind::Interrupted,
    ensures
        next(client, exchange, Event::<'a>::Sent(Err(err))) == (client, exchange),
{
}

/// The write that takes the last of a frame ends a request that waits for nothing. One that waits for a
/// response goes on to fix its deadline if it has a timeout, and to an unbounded read if it has none.
/// The client is as it was.
pub proof fn law_a_complete_write_ends_or_begins_the_wait<'a>(
    client: ClientView,
    exchange: ExchangeView,
    written: usize,
)
    requires
        exchange.stage is Sending,
        written > 0,
        written >= exchange.unsent.len(),
    ensures
        ({
            let (after, on) = next(client, exchange, Event::<'a>::Sent(Ok(written)));
            &&& after == client
            &&& on.unsent.len() == 0
            &&& exchange.awaits is None ==> on.stage == StageView::Done(Ok(None))
            &&& exchange.awaits is Some && exchange.timeout is Some ==> on.stage is Deadline
            &&& exchange.awaits is Some && exchange.timeout is None && client.io.usable ==> on.stage
                == StageView::Arming(None)
            &&& exchange.awaits is Some && exchange.timeout is None && !client.io.usable ==> on.stage
                == StageView::Clearing(
                Err(ErrorView::Protocol("the IPC response stream is unusable"@)),
            )
        }),
{
}

/// A write that fails ends the request with that failure and retires the connection. What was left to
/// write stays unwritten.
pub proof fn law_a_failed_write_retires_the_connection<'a>(
    client: ClientView,
    exchange: ExchangeView,
    err: IoError,
)
    requires
        exchange.stage is Sending,
        err.kind != ErrorKind::Interrupted,
    ensures
        ({
            let (after, over) = next(client, exchange, Event::<'a>::Sent(Err(err)));
            &&& over.stage == StageView::Done(Err(ErrorView::Io(err@)))
            &&& is_same_request(over, exchange)
            &&& has_given_up(client, exchange, after, false)
        }),
{
}

/// A write that takes nothing ends the request and retires the connection.
pub proof fn law_a_write_without_progress_retires_the_connection<'a>(
    client: ClientView,
    exchange: ExchangeView,
)
    requires
        exchange.stage is Sending,
    ensures
        ({
            let (after, over) = next(client, exchange, Event::<'a>::Sent(Ok(0)));
            &&& over.stage matches StageView::Done(Err(ErrorView::Io(err)))
            &&& err.kind == ErrorKind::WriteZero
            &&& err.code is None
            &&& err.message == "IPC socket write made no progress"@
            &&& is_same_request(over, exchange)
            &&& has_given_up(client, exchange, after, false)
        }),
{
    law_write_failures(exchange.unsent, Ok(0));
}

/// Once the deadline is fixed, the time that is left is looked up. A deadline that cannot be told ends
/// the request, and leaves the connection as usable as it was.
pub proof fn law_deadlines_are_fixed_or_end_the_request<'a>(
    client: ClientView,
    exchange: ExchangeView,
)
    requires
        exchange.stage is Deadline,
        exchange.timeout is Some,
    ensures
        ({
            let (after, on) = next(client, exchange, Event::<'a>::DeadlineSet(true));
            &&& after == client
            &&& is_same_request(on, exchange)
            &&& client.io.usable ==> on.stage is Clock
            &&& !client.io.usable ==> on.stage == StageView::Clearing(
                Err(ErrorView::Protocol("the IPC response stream is unusable"@)),
            )
        }),
        ({
            let (after, over) = next(client, exchange, Event::<'a>::DeadlineSet(false));
            &&& over.stage == StageView::Done(
                Err(ErrorView::Protocol("the response deadline overflowed"@)),
            )
            &&& is_same_request(over, exchange)
            &&& has_given_up(client, exchange, after, client.io.usable)
        }),
{
}

/// A wait that is told what is left until its deadline bounds the next read by that, and by nothing
/// else.
pub proof fn law_the_next_read_gets_the_time_that_is_left<'a>(
    client: ClientView,
    exchange: ExchangeView,
    left: Timeout,
)
    requires
        exchange.stage is Clock,
    ensures
        ({
            let (after, on) = next(client, exchange, Event::<'a>::Remaining(Some(left)));
            &&& after == client
            &&& on.stage == StageView::Arming(Some(left))
            &&& is_same_request(on, exchange)
        }),
{
}

/// A wait whose deadline has passed ends with a timeout. If the read timeout is then lifted, the
/// connection is as usable as it was, and the next request begins if it was usable; an acknowledged
/// message is remembered, so that its late response can be told.
pub proof fn law_a_timeout_leaves_the_connection_usable<'a>(
    client: ClientView,
    exchange: ExchangeView,
    kind: u32,
    payload: Seq<u8>,
    awaits: Option<ExpectedResponse>,
    timeout: Option<Timeout>,
)
    requires
        exchange.stage is Clock,
        payload.len() <= u32::MAX,
    ensures
        ({
            let (between, lifting) = next(client, exchange, Event::<'a>::Remaining(None));
            let (after, over) = next(between, lifting, Event::<'a>::ReadTimeoutSet(Ok(())));
            &&& between == client
            &&& lifting.stage is Clearing
            &&& over.stage matches StageView::Done(Err(ErrorView::Io(err)))
            &&& err.kind == ErrorKind::TimedOut
            &&& err.code is None
            &&& err.message == "timed out waiting for an IPC response"@
            &&& is_same_request(over, exchange)
            &&& has_given_up(client, exchange, after, client.io.usable)
            &&& client.io.usable ==> begin(after.io, kind, payload, awaits, timeout) is Ok
        }),
{
}

/// Once the read timeout is set, the read begins. If it cannot be set, the wait is over with that
/// failure, and the connection is as it was.
pub proof fn law_reads_follow_their_timeout<'a>(
    client: ClientView,
    exchange: ExchangeView,
    set: Result<(), IoError>,
)
    requires
        exchange.stage is Arming,
    ensures
        ({
            let (after, on) = next(client, exchange, Event::<'a>::ReadTimeoutSet(set));
            &&& after == client
            &&& is_same_request(on, exchange)
            &&& set is Ok ==> on.stage is Receiving
            &&& set matches Err(err) ==> on.stage == StageView::Clearing(
                Err(ErrorView::Io(err@)),
            )
        }),
{
}

/// A read that runs into its timeout, would block or is interrupted is tried again if the wait has a
/// deadline, which is looked at first, and the connection is as it was. Any other failure of a read, and
/// every one in a wait without a deadline, ends the wait and retires the connection.
pub proof fn law_failed_reads_are_tried_again_or_end_the_wait<'a>(
    client: ClientView,
    exchange: ExchangeView,
    err: IoError,
)
    requires
        exchange.stage is Receiving,
    ensures
        ({
            let (after, on) = next(client, exchange, Event::<'a>::Received(Err(err)));
            let again = exchange.timeout is Some && (err.kind == ErrorKind::WouldBlock || err.kind
                == ErrorKind::TimedOut || err.kind == ErrorKind::Interrupted);
            &&& is_same_request(on, exchange)
            &&& again ==> after == client && on.stage is Clock
            &&& !again ==> {
                &&& on.stage == StageView::Clearing(Err(ErrorView::Io(err@)))
                &&& !after.io.usable
                &&& after.io.received == client.io.received
                &&& after.io.abandoned == client.io.abandoned
            }
        }),
{
}

/// To lift the read timeout without error changes nothing of the connection, whatever came of the wait,
/// but that an acknowledged message which has failed is remembered. The request ends with what came of
/// the wait.
pub proof fn law_lifting_the_read_timeout_keeps_the_connection<'a>(
    client: ClientView,
    exchange: ExchangeView,
    result: Result<Option<MessageAck>, ErrorView>,
)
    requires
        exchange.stage == StageView::Clearing(result),
    ensures
        ({
            let (after, over) = next(client, exchange, Event::<'a>::ReadTimeoutSet(Ok(())));
            let asked = exchange.awaits matches Some(ExpectedResponse::Ack(_));
            &&& is_same_request(over, exchange)
            &&& after.io.usable == client.io.usable
            &&& after.io.received == client.io.received
            &&& result is Err ==> over.stage == StageView::Done(result) && has_given_up(
                client,
                exchange,
                after,
                client.io.usable,
            )
            &&& result is Ok && (asked ==> result->Ok_0 is Some) ==> over.stage == StageView::Done(
                result,
            ) && after == client
            &&& asked && result == Ok::<Option<MessageAck>, ErrorView>(None) ==> over.stage
                == StageView::Done(
                Err(ErrorView::Protocol("acknowledged user message returned no status"@)),
            ) && has_given_up(client, exchange, after, client.io.usable)
        }),
{
}

/// If the read timeout cannot be lifted, the connection is retired, and the request fails: for what the
/// wait failed for, or else for that.
pub proof fn law_a_read_timeout_that_stays_retires_the_connection<'a>(
    client: ClientView,
    exchange: ExchangeView,
    result: Result<Option<MessageAck>, ErrorView>,
    err: IoError,
)
    requires
        exchange.stage == StageView::Clearing(result),
    ensures
        ({
            let (after, over) = next(client, exchange, Event::<'a>::ReadTimeoutSet(Err(err)));
            &&& is_same_request(over, exchange)
            &&& has_given_up(client, exchange, after, false)
            &&& result matches Err(first) ==> over.stage == StageView::Done(Err(first))
            &&& result is Ok ==> over.stage == StageView::Done(Err(ErrorView::Io(err@)))
        }),
{
}

/// Whether a read that delivers `bytes` completes this response.
pub open spec fn completes(client: ClientView, bytes: Seq<u8>, frame: ResponseFrame) -> bool {
    match client.transport {
        Transport::SeqPacket => bytes == frame.wire(),
        Transport::ByteStream => bytes.len() > 0 && client.io.received + bytes == frame.wire(),
    }
}

/// What a complete response does to a wait. The one that is awaited ends it, with the status that it
/// carries. One to a request whose caller gave up is forgotten with that request, and the wait goes on:
/// it looks at its deadline if it has one, and reads without a bound if it has none. Any other ends the
/// wait and retires the connection.
pub proof fn law_complete_responses_end_the_wait_or_not<'a>(
    client: ClientView,
    exchange: ExchangeView,
    expected: ExpectedResponse,
    bytes: &'a [u8],
    frame: ResponseFrame,
)
    requires
        exchange.stage is Receiving,
        exchange.awaits == Some(expected),
        completes(client, bytes@, frame),
    ensures
        ({
            let (after, on) = next(client, exchange, Event::Received(Ok(bytes)));
            let awaited = match (expected, frame) {
                (ExpectedResponse::Ack(id), ResponseFrame::Ack { request_id, .. }) => id
                    == request_id,
                (ExpectedResponse::CrashAck, ResponseFrame::CrashAck) => true,
                (ExpectedResponse::Pong, ResponseFrame::Pong) => true,
                _ => false,
            };
            let late = frame matches ResponseFrame::Ack { request_id, .. }
                && client.io.abandoned.contains(request_id);
            &&& is_same_request(on, exchange)
            &&& client.transport == Transport::SeqPacket ==> after.io.received == client.io.received
            &&& client.transport == Transport::ByteStream ==> after.io.received.len() == 0
            &&& awaited ==> {
                &&& on.stage == StageView::Clearing(
                    Ok(
                        match frame {
                            ResponseFrame::Ack { status, .. } => Some(status),
                            _ => None,
                        },
                    ),
                )
                &&& after.io.usable == client.io.usable
                &&& after.io.abandoned == client.io.abandoned
            }
            &&& !awaited && late ==> {
                &&& exchange.timeout is Some ==> on.stage is Clock
                &&& exchange.timeout is None ==> on.stage == StageView::Arming(None)
                &&& after.io.usable == client.io.usable
                &&& after.io.abandoned == client.io.abandoned.remove(frame->request_id)
            }
            &&& !awaited && !late ==> {
                &&& on.stage == StageView::Clearing(
                    Err(ErrorView::Protocol("received an unexpected IPC response"@)),
                )
                &&& !after.io.usable
                &&& after.io.abandoned == client.io.abandoned
            }
        }),
{
    law_datagram_read_back(frame);
    if client.transport == Transport::ByteStream {
        law_stream_holds_nothing_back(client.io.received, bytes@, frame);
    }
    law_every_response_goes_one_of_three_ways(client.io, expected, frame);
}

/// A piece of a response that does not complete it is held, and nothing else changes. A wait with a
/// deadline looks at it before it reads on.
pub proof fn law_pieces_are_held<'a>(
    client: ClientView,
    exchange: ExchangeView,
    bytes: &'a [u8],
    frame: ResponseFrame,
)
    requires
        exchange.stage is Receiving,
        exchange.awaits is Some,
        client.transport == Transport::ByteStream,
        bytes@.len() > 0,
        (client.io.received + bytes@).is_prefix_of(frame.wire()),
        client.io.received + bytes@ != frame.wire(),
    ensures
        ({
            let (after, on) = next(client, exchange, Event::Received(Ok(bytes)));
            &&& is_same_request(on, exchange)
            &&& exchange.timeout is Some ==> on.stage is Clock
            &&& exchange.timeout is None ==> on.stage is Receiving
            &&& after.io.received == client.io.received + bytes@
            &&& after.io.usable == client.io.usable
            &&& after.io.abandoned == client.io.abandoned
        }),
{
    law_part_of_a_response_is_held(frame, client.io.received, bytes@);
}

/// Bytes off a stream that neither complete a response nor are refused are held, and nothing else
/// changes. A wait with a deadline looks at it before it reads on.
pub proof fn law_incomplete_bytes_are_held<'a>(
    client: ClientView,
    exchange: ExchangeView,
    bytes: &'a [u8],
)
    requires
        exchange.stage is Receiving,
        exchange.awaits is Some,
        client.transport == Transport::ByteStream,
        bytes@.len() > 0,
        stream_step(client.io.received, bytes@).1 == Ok::<Option<ResponseFrame>, ErrorView>(None),
    ensures
        ({
            let (after, on) = next(client, exchange, Event::Received(Ok(bytes)));
            &&& is_same_request(on, exchange)
            &&& exchange.timeout is Some ==> on.stage is Clock
            &&& exchange.timeout is None ==> on.stage is Receiving
            &&& after.io.received == client.io.received + bytes@
            &&& after.io.usable == client.io.usable
            &&& after.io.abandoned == client.io.abandoned
        }),
{
}

/// A datagram that is no response ends the wait with what is wrong with it, and retires the connection.
pub proof fn law_bad_datagrams_retire_the_connection<'a>(
    client: ClientView,
    exchange: ExchangeView,
    bytes: &'a [u8],
)
    requires
        exchange.stage is Receiving,
        exchange.awaits is Some,
        client.transport == Transport::SeqPacket,
        forall|frame: ResponseFrame| #[trigger] frame.wire() != bytes@,
    ensures
        ({
            let (after, on) = next(client, exchange, Event::Received(Ok(bytes)));
            &&& is_same_request(on, exchange)
            &&& frame_of_datagram(bytes@) matches Err(err)
            &&& on.stage == StageView::Clearing(Err(err))
            &&& !after.io.usable
            &&& after.io.received == client.io.received
            &&& after.io.abandoned == client.io.abandoned
        }),
{
    law_datagrams_are_refused_for_what_is_wrong(bytes@);
}

/// Bytes off a stream that are refused end the wait with what is wrong with them, and retire the
/// connection.
pub proof fn law_bad_streams_retire_the_connection<'a>(
    client: ClientView,
    exchange: ExchangeView,
    bytes: &'a [u8],
    err: ErrorView,
)
    requires
        exchange.stage is Receiving,
        exchange.awaits is Some,
        client.transport == Transport::ByteStream,
        bytes@.len() > 0,
        stream_step(client.io.received, bytes@).1 == Err::<Option<ResponseFrame>, _>(err),
    ensures
        ({
            let (after, on) = next(client, exchange, Event::Received(Ok(bytes)));
            &&& is_same_request(on, exchange)
            &&& on.stage == StageView::Clearing(Err(err))
            &&& !after.io.usable
            &&& after.io.abandoned == client.io.abandoned
        }),
{
}

/// A peer that is gone ends the wait and retires the connection. Whether it went in the middle of a
/// response is told.
pub proof fn law_a_closed_connection_is_retired<'a>(
    client: ClientView,
    exchange: ExchangeView,
    bytes: &'a [u8],
)
    requires
        exchange.stage is Receiving,
        exchange.awaits is Some,
        bytes@.len() == 0,
    ensures
        ({
            let (after, on) = next(client, exchange, Event::Received(Ok(bytes)));
            &&& is_same_request(on, exchange)
            &&& on.stage matches StageView::Clearing(Err(ErrorView::Io(err)))
            &&& err.kind == ErrorKind::UnexpectedEof
            &&& err.code is None
            &&& err.message == if client.transport == Transport::ByteStream
                && client.io.received.len() > 0 {
                "the peer closed the connection mid-response"@
            } else {
                "the peer closed the connection while a response was pending"@
            }
            &&& !after.io.usable
            &&& after.io.received == client.io.received
            &&& after.io.abandoned == client.io.abandoned
        }),
{
}

/// A connection is only ever retired for one of these reasons: a write that failed or took nothing, a
/// read that failed for good, something read that is no response, a response that nobody waits for, or
/// a read timeout that could not be lifted. Above all, no timeout and no late response retires it.
pub proof fn law_connections_are_retired_for_a_reason<'a>(
    client: ClientView,
    exchange: ExchangeView,
    event: Event<'a>,
)
    requires
        client.io.usable,
        !next(client, exchange, event).0.io.usable,
    ensures
        match event {
            Event::Sent(Ok(written)) => exchange.stage is Sending && written == 0,
            Event::Sent(Err(err)) => exchange.stage is Sending && err.kind != ErrorKind::Interrupted,
            Event::DeadlineSet(_) => false,
            Event::Remaining(_) => false,
            Event::ReadTimeoutSet(set) => exchange.stage is Clearing && set is Err,
            Event::Received(Err(err)) => exchange.stage is Receiving && (exchange.timeout is None
                || (err.kind != ErrorKind::WouldBlock && err.kind != ErrorKind::TimedOut && err.kind
                != ErrorKind::Interrupted)),
            Event::Received(Ok(bytes)) => exchange.stage is Receiving && forall|
                frame: ResponseFrame,
            | #[trigger]
                completes(client, bytes@, frame) ==> {
                    &&& !(frame matches ResponseFrame::Ack { request_id, .. } && (
                    client.io.abandoned.contains(request_id) || exchange.awaits == Some(
                        ExpectedResponse::Ack(request_id),
                    )))
                    &&& !(frame is CrashAck && exchange.awaits == Some(ExpectedResponse::CrashAck))
                    &&& !(frame is Pong && exchange.awaits == Some(ExpectedResponse::Pong))
                },
        },
{
    if let Event::Received(Ok(bytes)) = event {
        assert(exchange.stage is Receiving);
        assert(exchange.awaits is Some);
        let expected = exchange.awaits->Some_0;
        assert forall|frame: ResponseFrame| #[trigger] completes(client, bytes@, frame) implies {
            &&& !(frame matches ResponseFrame::Ack { request_id, .. } && (
            client.io.abandoned.contains(request_id) || exchange.awaits == Some(
                ExpectedResponse::Ack(request_id),
            )))
            &&& !(frame is CrashAck && exchange.awaits == Some(ExpectedResponse::CrashAck))
            &&& !(frame is Pong && exchange.awaits == Some(ExpectedResponse::Pong))
        } by {
            law_complete_responses_end_the_wait_or_not(client, exchange, expected, bytes, frame);
        }
    }
}

/// A request that is abandoned is the one that has just failed, and one that is forgotten is one whose
/// response has just been read.
pub proof fn law_abandoned_requests_change_one_at_a_time<'a>(
    client: ClientView,
    exchange: ExchangeView,
    event: Event<'a>,
    id: u64,
)
    ensures
        ({
            let (after, over) = next(client, exchange, event);
            &&& after.io.abandoned.contains(id) && !client.io.abandoned.contains(id)
                ==> exchange.awaits == Some(ExpectedResponse::Ack(id)) && (
            over.stage matches StageView::Done(Err(_)))
            &&& client.io.abandoned.contains(id) && !after.io.abandoned.contains(id)
                ==> exchange.stage is Receiving && event is Received && exchange.awaits != Some(
                ExpectedResponse::Ack(id),
            )
        }),
{
}

/// The time until the deadline that a wait was told last over these events.
pub open spec fn last_told<'a>(
    client: ClientView,
    exchange: ExchangeView,
    events: Seq<Event<'a>>,
) -> Option<Timeout>
    decreases events.len(),
{
    if events.len() == 0 {
        None
    } else {
        let stage = run(client, exchange, events.drop_last()).1.stage;
        match (stage, events.last()) {
            (StageView::Clock, Event::Remaining(Some(left))) => Some(left),
            _ => last_told(client, exchange, events.drop_last()),
        }
    }
}

/// Along any run of a request with a timeout, the read timeout that is to be set, and the one that a
/// read then has, is the time until the deadline that the wait was told last: a read takes no longer
/// than that, but for the microsecond that less is rounded up to.
pub proof fn law_reads_take_no_longer_than_is_left<'a>(
    client: ClientView,
    exchange: ExchangeView,
    events: Seq<Event<'a>>,
)
    requires
        exchange.wf(),
        exchange.stage is Sending,
        exchange.timeout is Some,
    ensures
        ({
            let stage = run(client, exchange, events).1.stage;
            let told = last_told(client, exchange, events);
            let bound = socket_timeout(client, exchange, events);
            &&& stage matches StageView::Arming(left) ==> told is Some && left == told
            &&& stage is Receiving ==> told is Some && bound == ReadTimeout::spec_of(told)
            &&& stage is Receiving ==> {
                let set = bound.tv_sec * 1_000_000_000 + bound.tv_usec * 1000;
                let left = told->Some_0.secs * 1_000_000_000 + told->Some_0.nanos;
                set <= left || set == 1000
            }
        }),
    decreases events.len(),
{
    if events.len() > 0 {
        let first = events.drop_last();
        law_reads_take_no_longer_than_is_left(client, exchange, first);
        law_requests_stay_well_formed(client, exchange, first);
    }
    let told = last_told(client, exchange, events);
    if told is Some && (told->Some_0.secs > 0 || told->Some_0.nanos >= 1000) {
        law_reads_keep_to_the_deadline(told->Some_0);
    }
}

} // verus!
