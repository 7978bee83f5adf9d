//! What holds of the client however its requests turn out.
use crate::client::{
    begin, begin_acked, begin_message, is_transient, next, next_id, turn, ClientView, Event,
    ExchangeView, StageView,
};
use crate::client_io::{answers, recv_step, route, unusable, IoView, Transport};
use crate::error::{timed_out, ErrorKind, ErrorView, IoError};
use crate::outgoing::{frame_wire, law_frame_read_back, send_step};
use crate::response::{
    law_datagram_read_back, law_datagram_write_back, ExpectedResponse, ResponseFrame, RouteOutcome,
};
use crate::stream::{
    law_stream_agrees_with_datagram, law_stream_holds_nothing_back, lemma_flatten_last,
    lemma_next_piece, lemma_wire_len, lemma_wires, room, wires,
};
use crate::timeout::{law_deadlines_stay_deadlines, ReadTimeout, Timeout};
use crate::wire::{
    acked_message_wire, Header, MessageAck, ACKED_USER_MESSAGE, ACKED_USER_RESPONSE, CRASH,
    CRASH_ACK, HEADER_SIZE, MAX_USER_KIND_EXCLUSIVE, PING, PONG, USER,
};
use vstd::prelude::*;

verus! {

/// A user message is never mistaken for a frame of the protocol, nor for a user message of another
/// kind.
pub proof fn law_user_kinds_do_not_collide(kind: u32, other: u32)
    requires
        kind < MAX_USER_KIND_EXCLUSIVE,
        other < MAX_USER_KIND_EXCLUSIVE,
    ensures
        USER + kind <= u32::MAX,
        USER + kind != CRASH,
        USER + kind != CRASH_ACK,
        USER + kind != PING,
        USER + kind != PONG,
        USER + kind != ACKED_USER_MESSAGE,
        USER + kind != ACKED_USER_RESPONSE,
        USER + kind == USER + other ==> kind == other,
{
}

/// The response to an abandoned request is discarded by whoever waits next, whatever they wait for,
/// and the connection stays as good as it was. It is expected once: a second one is a breach of the
/// protocol.
pub proof fn law_abandoned_response_is_discarded_once(
    io: IoView,
    request_id: u64,
    expected: ExpectedResponse,
    status: MessageAck,
    second: MessageAck,
)
    requires
        io.abandoned.contains(request_id),
        expected != ExpectedResponse::Ack(request_id),
    ensures
        ({
            let late = ResponseFrame::Ack { request_id, status };
            let again = ResponseFrame::Ack { request_id, status: second };
            let (after, outcome) = route(io, expected, late);
            &&& outcome == Ok::<_, ErrorView>(RouteOutcome::Discarded)
            &&& after.usable == io.usable
            &&& after.received == io.received
            &&& after.abandoned == io.abandoned.remove(request_id)
            &&& route(after, expected, again).1 is Err
            &&& !route(after, expected, again).0.usable
        }),
{
}

/// A response to a request whose caller has already given up is not mistaken for the crash ack that
/// the minidump request is waiting for, and does not keep it from arriving.
pub proof fn law_late_response_does_not_hide_the_crash_ack(
    io: IoView,
    request_id: u64,
    status: MessageAck,
)
    requires
        io.usable,
        io.abandoned.contains(request_id),
    ensures
        ({
            let late = ResponseFrame::Ack { request_id, status };
            let (after, outcome) = route(io, ExpectedResponse::CrashAck, late);
            let (last, arrived) = route(after, ExpectedResponse::CrashAck, ResponseFrame::CrashAck);
            &&& outcome == Ok::<_, ErrorView>(RouteOutcome::Discarded)
            &&& arrived == Ok::<_, ErrorView>(RouteOutcome::Complete(None))
            &&& last.usable
            &&& !last.abandoned.contains(request_id)
        }),
{
}

/// A response that nobody asked for costs the connection.
pub proof fn law_unasked_response_retires_the_connection(
    io: IoView,
    expected: ExpectedResponse,
    response: ResponseFrame,
)
    requires
        answers(expected, response) is None,
        response matches ResponseFrame::Ack { request_id, .. } ==> !io.abandoned.contains(
            request_id,
        ),
    ensures
        route(io, expected, response).1 is Err,
        route(io, expected, response).0 == io.retired(),
{
}

/// The client and a request after these events, one after the other.
pub open spec fn run<'a>(client: ClientView, exchange: ExchangeView, events: Seq<Event<'a>>) -> (
    ClientView,
    ExchangeView,
)
    decreases events.len(),
{
    if events.len() == 0 {
        (client, exchange)
    } else {
        let (client, exchange) = run(client, exchange, events.drop_last());
        next(client, exchange, events.last())
    }
}

/// Whatever happens, a request stays well-formed, and keeps the response that it awaits and its
/// timeout. No request changes the transport or takes the id of another.
pub proof fn law_requests_stay_well_formed<'a>(
    client: ClientView,
    exchange: ExchangeView,
    events: Seq<Event<'a>>,
)
    requires
        exchange.wf(),
    ensures
        run(client, exchange, events).1.wf(),
        run(client, exchange, events).1.awaits == exchange.awaits,
        run(client, exchange, events).1.timeout == exchange.timeout,
        run(client, exchange, events).0.transport == client.transport,
        run(client, exchange, events).0.next_request_id == client.next_request_id,
    decreases events.len(),
{
    if events.len() > 0 {
        law_requests_stay_well_formed(client, exchange, events.drop_last());
    }
}

/// A request without a timeout never watches a deadline and never bounds a read, so that its wait is
/// not cut short.
pub proof fn law_unbounded_waits_stay_unbounded<'a>(
    client: ClientView,
    exchange: ExchangeView,
    events: Seq<Event<'a>>,
)
    requires
        exchange.wf(),
        exchange.timeout is None,
    ensures
        ({
            let stage = run(client, exchange, events).1.stage;
            &&& !(stage is Deadline)
            &&& !(stage is Clock)
            &&& stage matches StageView::Arming(left) ==> ReadTimeout::spec_of(left).is_unbounded()
        }),
{
    law_requests_stay_well_formed(client, exchange, events);
}

/// A request with a timeout bounds every read.
pub proof fn law_bounded_waits_bound_every_read<'a>(
    client: ClientView,
    exchange: ExchangeView,
    events: Seq<Event<'a>>,
)
    requires
        exchange.wf(),
        exchange.timeout is Some,
    ensures
        run(client, exchange, events).1.stage matches StageView::Arming(left)
            ==> !ReadTimeout::spec_of(left).is_unbounded(),
{
    law_requests_stay_well_formed(client, exchange, events);
    if let StageView::Arming(left) = run(client, exchange, events).1.stage {
        law_deadlines_stay_deadlines(left);
    }
}

/// The deadline is fixed at most once, right behind the frame. What follows never writes again.
pub proof fn law_deadline_is_fixed_once<'a>(
    client: ClientView,
    exchange: ExchangeView,
    events: Seq<Event<'a>>,
)
    requires
        !(exchange.stage is Sending),
        !(exchange.stage is Deadline),
    ensures
        !(run(client, exchange, events).1.stage is Sending),
        !(run(client, exchange, events).1.stage is Deadline),
    decreases events.len(),
{
    if events.len() > 0 {
        law_deadline_is_fixed_once(client, exchange, events.drop_last());
    }
}

/// A wait with a deadline looks at it between any two reads, so that a response that dribbles in, or
/// responses to abandoned requests, cannot extend the wait.
pub proof fn law_every_read_is_held_to_the_deadline<'a>(
    client: ClientView,
    exchange: ExchangeView,
    received: Result<&'a [u8], IoError>,
)
    requires
        exchange.wf(),
        exchange.timeout is Some,
        exchange.stage is Receiving,
    ensures
        ({
            let stage = next(client, exchange, Event::Received(received)).1.stage;
            stage is Clock || stage is Clearing
        }),
{
}

/// A connection whose frame boundary is lost stays unusable, and no request gets through on it.
pub proof fn law_unusable_for_good<'a>(
    client: ClientView,
    exchange: ExchangeView,
    events: Seq<Event<'a>>,
    kind: u32,
    payload: Seq<u8>,
    awaits: Option<ExpectedResponse>,
    timeout: Option<Timeout>,
)
    requires
        !client.io.usable,
    ensures
        !run(client, exchange, events).0.io.usable,
        begin(run(client, exchange, events).0.io, kind, payload, awaits, timeout) == Err::<
            ExchangeView,
            _,
        >(unusable()),
    decreases events.len(),
{
    if events.len() > 0 {
        law_unusable_for_good(
            client,
            exchange,
            events.drop_last(),
            kind,
            payload,
            awaits,
            timeout,
        );
    }
}

/// A message of a reserved kind, and any message on an unusable connection, is rejected before
/// anything reaches the wire or changes.
pub proof fn law_rejected_messages_leave_no_trace(
    client: ClientView,
    kind: u32,
    buf: Seq<u8>,
    timeout: Timeout,
)
    requires
        kind >= MAX_USER_KIND_EXCLUSIVE || !client.io.usable,
    ensures
        begin_acked(client, kind, buf, timeout).0 is Err,
        begin_acked(client, kind, buf, timeout).1 == client,
{
}

/// A request begins well-formed, with the whole of its frame to be written.
pub proof fn law_requests_begin_well_formed(
    io: IoView,
    kind: u32,
    payload: Seq<u8>,
    awaits: Option<ExpectedResponse>,
    timeout: Option<Timeout>,
)
    ensures
        begin(io, kind, payload, awaits, timeout) matches Ok(exchange) ==> {
            &&& exchange.wf()
            &&& exchange.stage is Sending
            &&& exchange.unsent == frame_wire(kind, payload)
        },
{
    if payload.len() <= u32::MAX {
        law_frame_read_back(kind, payload);
    }
}

/// Acknowledged messages take their ids in the order in which they are sent, and no two in a row take
/// the same.
pub proof fn law_request_ids_follow_the_wire(
    client: ClientView,
    kind: u32,
    buf: Seq<u8>,
    timeout: Timeout,
)
    ensures
        ({
            let (begun, after) = begin_acked(client, kind, buf, timeout);
            begun matches Ok(exchange) ==> {
                &&& exchange.wf()
                &&& exchange.awaits == Some(ExpectedResponse::Ack(client.next_request_id))
                &&& after.next_request_id == next_id(client.next_request_id)
                &&& after.next_request_id != client.next_request_id
                &&& after.io == client.io
            }
        }),
{
    law_requests_begin_well_formed(
        client.io,
        ACKED_USER_MESSAGE,
        acked_message_wire(client.next_request_id, kind, buf),
        Some(ExpectedResponse::Ack(client.next_request_id)),
        Some(timeout),
    );
}

/// An acknowledged message that has failed is abandoned, so that the connection, if it is still
/// usable, discards the response whoever waits next. One that has succeeded is not.
pub proof fn law_failed_messages_are_abandoned<'a>(
    client: ClientView,
    exchange: ExchangeView,
    event: Event<'a>,
    request_id: u64,
    expected: ExpectedResponse,
    status: MessageAck,
)
    requires
        exchange.wf(),
        exchange.awaits == Some(ExpectedResponse::Ack(request_id)),
        !(exchange.stage is Done),
        next(client, exchange, event).1.stage is Done,
        expected != ExpectedResponse::Ack(request_id),
    ensures
        ({
            let (after, over) = next(client, exchange, event);
            let late = ResponseFrame::Ack { request_id, status };
            if over.stage->Done_0 is Err {
                &&& after.io.abandoned == client.io.abandoned.insert(request_id)
                &&& route(after.io, expected, late).1 == Ok::<_, ErrorView>(RouteOutcome::Discarded)
            } else {
                &&& over.stage->Done_0->Ok_0 is Some
                &&& after.io.abandoned == client.io.abandoned
            }
        }),
{
}

/// Whether the read at place `i` of these events completes `frame`.
pub open spec fn is_delivered_at<'a>(
    client: ClientView,
    exchange: ExchangeView,
    events: Seq<Event<'a>>,
    i: int,
    frame: ResponseFrame,
) -> bool {
    0 <= i < events.len() && (events[i] matches Event::Received(Ok(bytes)) && recv_step(
        client.transport,
        run(client, exchange, events.take(i)).0.io.received,
        bytes@,
    ).1 == Ok::<_, ErrorView>(Some(frame)))
}

/// The wait of a request for a response only ends well because a read has delivered that response.
pub proof fn law_success_is_answered<'a>(
    client: ClientView,
    exchange: ExchangeView,
    events: Seq<Event<'a>>,
    expected: ExpectedResponse,
    status: Option<MessageAck>,
)
    requires
        exchange.wf(),
        exchange.stage is Sending,
        exchange.awaits == Some(expected),
        ({
            let stage = run(client, exchange, events).1.stage;
            ||| stage == StageView::Clearing(Ok(status))
            ||| stage == StageView::Done(Ok(status))
        }),
    ensures
        exists|i: int, frame: ResponseFrame|
            #[trigger] is_delivered_at(client, exchange, events, i, frame) && answers(
                expected,
                frame,
            ) == Some(status),
    decreases events.len(),
{
    if events.len() > 0 {
        let before = events.drop_last();
        let (c, x) = run(client, exchange, before);
        law_requests_stay_well_formed(client, exchange, before);
        if x.stage == StageView::Clearing(Ok(status)) || x.stage == StageView::Done(Ok(status)) {
            law_success_is_answered(client, exchange, before, expected, status);
            let (i, frame) = choose|i: int, frame: ResponseFrame|
                #[trigger] is_delivered_at(client, exchange, before, i, frame) && answers(
                    expected,
                    frame,
                ) == Some(status);
            assert(before.take(i) =~= events.take(i));
            assert(is_delivered_at(client, exchange, events, i, frame));
        } else {
            let i = events.len() - 1;
            assert(events.take(i) =~= before);
            assert(x.stage is Receiving);
            let bytes = events[i]->Received_0->Ok_0;
            let frame = recv_step(client.transport, c.io.received, bytes@).1->Ok_0->Some_0;
            assert(is_delivered_at(client, exchange, events, i, frame));
        }
    }
}

/// An acknowledged message succeeds with a verdict only where a read has delivered the response of the
/// server that carries the id of that message and that verdict, be it as one datagram or as the last
/// piece off a byte stream.
pub proof fn law_verdicts_come_from_the_server<'a>(
    client: ClientView,
    exchange: ExchangeView,
    events: Seq<Event<'a>>,
    request_id: u64,
    status: MessageAck,
)
    requires
        exchange.wf(),
        exchange.stage is Sending,
        exchange.awaits == Some(ExpectedResponse::Ack(request_id)),
        run(client, exchange, events).1.stage == StageView::Done(Ok(Some(status))),
    ensures
        exists|i: int|
            0 <= i < events.len() && (#[trigger] events[i] matches Event::Received(Ok(bytes)) && (
            ResponseFrame::Ack { request_id, status }).wire() == (match client.transport {
                Transport::SeqPacket => bytes@,
                Transport::ByteStream => run(client, exchange, events.take(i)).0.io.received
                    + bytes@,
            })),
{
    let expected = ExpectedResponse::Ack(request_id);
    law_success_is_answered(client, exchange, events, expected, Some(status));
    let (i, frame) = choose|i: int, frame: ResponseFrame|
        #[trigger] is_delivered_at(client, exchange, events, i, frame) && answers(expected, frame)
            == Some(Some(status));
    assert(frame == ResponseFrame::Ack { request_id, status });
    let bytes = events[i]->Received_0->Ok_0;
    match client.transport {
        Transport::SeqPacket => law_datagram_write_back(bytes@),
        Transport::ByteStream => {
            let got = run(client, exchange, events.take(i)).0.io.received + bytes@;
            law_stream_agrees_with_datagram(got);
            law_datagram_write_back(got);
        },
    }
}

/// The read timeout of the socket after these events, if it was unbounded before them.
pub open spec fn socket_timeout<'a>(
    client: ClientView,
    exchange: ExchangeView,
    events: Seq<Event<'a>>,
) -> ReadTimeout
    decreases events.len(),
{
    if events.len() == 0 {
        ReadTimeout::spec_of(None)
    } else {
        let stage = run(client, exchange, events.drop_last()).1.stage;
        match (stage, events.last()) {
            (StageView::Arming(left), Event::ReadTimeoutSet(Ok(()))) => ReadTimeout::spec_of(left),
            (StageView::Clearing(_), Event::ReadTimeoutSet(Ok(()))) => ReadTimeout::spec_of(None),
            _ => socket_timeout(client, exchange, events.drop_last()),
        }
    }
}

/// A request leaves no read timeout behind on a connection that can be used again, so that no later
/// wait is cut short by it.
pub proof fn law_read_timeout_is_lifted<'a>(
    client: ClientView,
    exchange: ExchangeView,
    events: Seq<Event<'a>>,
)
    requires
        exchange.wf(),
        exchange.stage is Sending,
    ensures
        ({
            let (after, over) = run(client, exchange, events);
            let unbounded = socket_timeout(client, exchange, events).is_unbounded();
            &&& over.stage is Done ==> unbounded || !after.io.usable
            &&& over.stage is Sending || over.stage is Deadline ==> unbounded
        }),
    decreases events.len(),
{
    if events.len() > 0 {
        law_read_timeout_is_lifted(client, exchange, events.drop_last());
    }
}

/// The server reads off the wire the very message that the client was asked to send, under the id
/// whose verdict the client awaits.
pub proof fn law_acked_messages_arrive_as_sent(
    client: ClientView,
    kind: u32,
    buf: Seq<u8>,
    timeout: Timeout,
)
    ensures
        begin_acked(client, kind, buf, timeout).0 matches Ok(exchange) ==> {
            let header = Header::of_wire(exchange.unsent.take(HEADER_SIZE as int));
            let message = exchange.unsent.skip(HEADER_SIZE as int);
            &&& header.kind == ACKED_USER_MESSAGE
            &&& header.size == message.len()
            &&& message == acked_message_wire(client.next_request_id, kind, buf)
            &&& exchange.awaits == Some(ExpectedResponse::Ack(client.next_request_id))
            &&& exchange.timeout == Some(timeout)
        },
{
    if begin_acked(client, kind, buf, timeout).0 is Ok {
        law_frame_read_back(
            ACKED_USER_MESSAGE,
            acked_message_wire(client.next_request_id, kind, buf),
        );
    }
}

/// The read that completes the awaited response ends the wait, with the status that the response
/// carries, and leaves the connection as good as it was. The request is over once the read timeout is
/// lifted.
pub proof fn law_the_answer_ends_the_wait<'a>(
    client: ClientView,
    exchange: ExchangeView,
    bytes: &'a [u8],
    expected: ExpectedResponse,
    frame: ResponseFrame,
    status: Option<MessageAck>,
)
    requires
        exchange.stage is Receiving,
        exchange.awaits == Some(expected),
        answers(expected, frame) == Some(status),
        match client.transport {
            Transport::SeqPacket => bytes@ == frame.wire(),
            Transport::ByteStream => bytes@.len() > 0 && client.io.received + bytes@
                == frame.wire(),
        },
    ensures
        ({
            let (after, over) = next(client, exchange, Event::Received(Ok(bytes)));
            &&& over == exchange.at(StageView::Clearing(Ok(status)))
            &&& next(after, over, Event::ReadTimeoutSet(Ok(()))) == (
                after,
                exchange.at(StageView::Done(Ok(status))),
            )
            &&& after.io.usable == client.io.usable
            &&& after.io.abandoned == client.io.abandoned
            &&& client.transport == Transport::ByteStream ==> after.io.received.len() == 0
        }),
{
    law_datagram_read_back(frame);
    if client.transport == Transport::ByteStream {
        law_stream_holds_nothing_back(client.io.received, bytes@, frame);
    }
}

/// A wait that finds the response to an abandoned request goes on for its own, whether that response
/// arrives in a datagram or off a byte stream.
pub proof fn law_late_response_is_discarded_by_the_next_wait<'a>(
    client: ClientView,
    exchange: ExchangeView,
    bytes: &'a [u8],
    expected: ExpectedResponse,
    request_id: u64,
    status: MessageAck,
)
    requires
        exchange.stage is Receiving,
        exchange.awaits == Some(expected),
        expected != ExpectedResponse::Ack(request_id),
        client.io.abandoned.contains(request_id),
        match client.transport {
            Transport::SeqPacket => bytes@ == (ResponseFrame::Ack { request_id, status }).wire(),
            Transport::ByteStream => bytes@.len() > 0 && client.io.received + bytes@ == (
            ResponseFrame::Ack { request_id, status }).wire(),
        },
    ensures
        ({
            let (after, on) = next(client, exchange, Event::Received(Ok(bytes)));
            &&& on == turn(exchange)
            &&& exchange.timeout is Some ==> on.stage is Clock
            &&& exchange.timeout is None ==> on.stage == StageView::Arming(None)
            &&& on.awaits == exchange.awaits && on.timeout == exchange.timeout
            &&& after.io.usable == client.io.usable
            &&& after.io.abandoned == client.io.abandoned.remove(request_id)
        }),
{
    let frame = ResponseFrame::Ack { request_id, status };
    law_datagram_read_back(frame);
    if client.transport == Transport::ByteStream {
        law_stream_holds_nothing_back(client.io.received, bytes@, frame);
    }
}

/// A server that is gone fails the wait, and the connection is not used again.
pub proof fn law_a_disconnected_server_fails_the_wait<'a>(
    client: ClientView,
    exchange: ExchangeView,
    bytes: &'a [u8],
)
    requires
        exchange.stage is Receiving,
        exchange.awaits is Some,
        bytes@.len() == 0,
    ensures
        ({
            let (after, over) = next(client, exchange, Event::Received(Ok(bytes)));
            &&& !after.io.usable
            &&& over.stage matches StageView::Clearing(Err(ErrorView::Io(err)))
            &&& err.kind == ErrorKind::UnexpectedEof
        }),
{
}

/// A wait whose deadline has passed fails with a timeout, and the connection stays usable.
pub proof fn law_a_passed_deadline_ends_the_wait(client: ClientView, exchange: ExchangeView)
    requires
        exchange.stage is Clock,
    ensures
        next(client, exchange, Event::Remaining(None)) == (
            client,
            exchange.at(StageView::Clearing(Err(timed_out()))),
        ),
{
}

/// What the socket has taken over these events.
pub open spec fn sent<'a>(client: ClientView, exchange: ExchangeView, events: Seq<Event<'a>>) -> Seq<
    u8,
>
    decreases events.len(),
{
    if events.len() == 0 {
        Seq::empty()
    } else {
        let (_, before) = run(client, exchange, events.drop_last());
        sent(client, exchange, events.drop_last()) + match (before.stage, events.last()) {
            (StageView::Sending, Event::Sent(Ok(written))) => if written <= before.unsent.len() {
                before.unsent.take(written as int)
            } else {
                before.unsent
            },
            _ => Seq::empty(),
        }
    }
}

/// Whatever happens, what the socket has taken and what is left to write make up the frame of the
/// request. A request that has succeeded has put out its frame, the whole of it and nothing else.
pub proof fn law_requests_put_out_their_frame<'a>(
    client: ClientView,
    exchange: ExchangeView,
    events: Seq<Event<'a>>,
)
    requires
        exchange.wf(),
    ensures
        sent(client, exchange, events) + run(client, exchange, events).1.unsent == exchange.unsent,
        run(client, exchange, events).1.stage matches StageView::Done(Ok(_)) ==> sent(
            client,
            exchange,
            events,
        ) == exchange.unsent,
    decreases events.len(),
{
    let after = run(client, exchange, events).1;
    law_requests_stay_well_formed(client, exchange, events);
    if events.len() == 0 {
        assert(sent(client, exchange, events) + after.unsent =~= exchange.unsent);
    } else {
        let first = events.drop_last();
        let before = run(client, exchange, first).1;
        law_requests_put_out_their_frame(client, exchange, first);
        assert(sent(client, exchange, events) + after.unsent =~= sent(client, exchange, first)
            + before.unsent);
    }
    if after.unsent.len() == 0 {
        assert(sent(client, exchange, events) + after.unsent =~= sent(client, exchange, events));
    }
}

/// The frames of these messages, one behind the other on the wire.
pub open spec fn messages_wire(messages: Seq<(u32, Seq<u8>)>) -> Seq<u8>
    decreases messages.len(),
{
    if messages.len() == 0 {
        Seq::empty()
    } else {
        messages_wire(messages.drop_last()) + frame_wire(
            (USER + messages.last().0) as u32,
            messages.last().1,
        )
    }
}

/// What becomes of the client, and what the socket has taken, when these messages are sent one after
/// the other, each with the events at its place. Nothing where one of them fails.
pub open spec fn send_all<'a>(
    client: ClientView,
    messages: Seq<(u32, Seq<u8>)>,
    events: Seq<Seq<Event<'a>>>,
) -> Option<(ClientView, Seq<u8>)>
    decreases messages.len(),
{
    if messages.len() == 0 {
        Some((client, Seq::empty()))
    } else {
        match send_all(client, messages.drop_last(), events.drop_last()) {
            None => None,
            Some((client, out)) => match begin_message(
                client.io,
                messages.last().0,
                messages.last().1,
            ) {
                Err(_) => None,
                Ok(exchange) => {
                    let (after, over) = run(client, exchange, events.last());
                    if over.stage matches StageView::Done(Ok(_)) {
                        Some((after, out + sent(client, exchange, events.last())))
                    } else {
                        None
                    }
                },
            },
        }
    }
}

/// A message without a verdict reads nothing: unless it fails, it leaves the client as it was.
proof fn lemma_messages_read_nothing<'a>(
    client: ClientView,
    exchange: ExchangeView,
    events: Seq<Event<'a>>,
)
    requires
        exchange.wf(),
        exchange.stage is Sending,
        exchange.awaits is None,
    ensures
        ({
            let (after, over) = run(client, exchange, events);
            &&& over.stage is Sending || over.stage is Done
            &&& over.stage is Sending || over.stage->Done_0 is Ok ==> after == client
        }),
    decreases events.len(),
{
    if events.len() > 0 {
        lemma_messages_read_nothing(client, exchange, events.drop_last());
        law_requests_stay_well_formed(client, exchange, events.drop_last());
    }
}

/// Messages that have all been sent put out their frames, whole and one behind the other. None of them
/// is of a reserved kind, and none of them reads a response or changes the client.
pub proof fn law_messages_go_out_whole<'a>(
    client: ClientView,
    messages: Seq<(u32, Seq<u8>)>,
    events: Seq<Seq<Event<'a>>>,
)
    requires
        messages.len() == events.len(),
    ensures
        send_all(client, messages, events) matches Some((after, out)) ==> {
            &&& out == messages_wire(messages)
            &&& after == client
            &&& forall|i: int|
                0 <= i < messages.len() ==> (#[trigger] messages[i]).0 < MAX_USER_KIND_EXCLUSIVE
        },
    decreases messages.len(),
{
    if messages.len() > 0 && send_all(client, messages, events) is Some {
        law_messages_go_out_whole(client, messages.drop_last(), events.drop_last());
        let (kind, buf) = messages.last();
        let exchange = begin_message(client.io, kind, buf)->Ok_0;
        law_requests_begin_well_formed(client.io, (USER + kind) as u32, buf, None, None);
        law_requests_put_out_their_frame(client, exchange, events.last());
        lemma_messages_read_nothing(client, exchange, events.last());
        assert forall|i: int| 0 <= i < messages.len() implies (#[trigger] messages[i]).0
            < MAX_USER_KIND_EXCLUSIVE by {
            if i < messages.len() - 1 {
                assert(messages.drop_last()[i] == messages[i]);
            }
        }
    }
}

/// Whether an event is one that the action which is due comes to when nothing goes wrong. A read
/// delivers something, and no more than there is room for; a wait with a deadline may also be told to
/// read again.
pub open spec fn is_good<'a>(client: ClientView, exchange: ExchangeView, event: Event<'a>) -> bool {
    match (exchange.stage, event) {
        (StageView::Sending, Event::Sent(sent)) => send_step(exchange.unsent, sent) is Ok,
        (StageView::Deadline, Event::DeadlineSet(fixed)) => fixed,
        (StageView::Clock, Event::Remaining(left)) => left is Some,
        (StageView::Arming(_), Event::ReadTimeoutSet(set)) => set is Ok,
        (StageView::Clearing(_), Event::ReadTimeoutSet(set)) => set is Ok,
        (StageView::Receiving, Event::Received(Ok(bytes))) => bytes@.len() > 0 && (client.transport
            == Transport::ByteStream ==> bytes@.len() <= room(client.io.received)),
        (StageView::Receiving, Event::Received(Err(err))) => exchange.timeout is Some
            && is_transient(err.kind),
        _ => false,
    }
}

/// Whether nothing goes wrong over these events.
pub open spec fn goes_well<'a>(
    client: ClientView,
    exchange: ExchangeView,
    events: Seq<Event<'a>>,
) -> bool
    decreases events.len(),
{
    events.len() > 0 ==> {
        let (before, on) = run(client, exchange, events.drop_last());
        goes_well(client, exchange, events.drop_last()) && is_good(before, on, events.last())
    }
}

/// What the reads of these events have delivered, one after the other.
pub open spec fn reads<'a>(events: Seq<Event<'a>>) -> Seq<Seq<u8>>
    decreases events.len(),
{
    if events.len() == 0 {
        Seq::empty()
    } else {
        match events.last() {
            Event::Received(Ok(bytes)) => reads(events.drop_last()).push(bytes@),
            _ => reads(events.drop_last()),
        }
    }
}

/// Whether the reads of these events deliver the beginning of these frames: datagrams hold one frame
/// each, and a byte stream splits what is one behind the other on the wire, the first part of which
/// may have arrived before.
pub open spec fn arrives<'a>(
    client: ClientView,
    events: Seq<Event<'a>>,
    frames: Seq<ResponseFrame>,
) -> bool {
    match client.transport {
        Transport::SeqPacket => reads(events).len() <= frames.len() && forall|i: int|
            0 <= i < reads(events).len() ==> #[trigger] reads(events)[i] == frames[i].wire(),
        Transport::ByteStream => {
            &&& (client.io.received + reads(events).flatten()).is_prefix_of(wires(frames))
            &&& frames.len() > 0 ==> client.io.received.len() < frames[0].wire().len()
        },
    }
}

/// Whether the reads of these events deliver these frames to the end.
pub open spec fn have_arrived<'a>(
    client: ClientView,
    events: Seq<Event<'a>>,
    frames: Seq<ResponseFrame>,
) -> bool {
    &&& arrives(client, events, frames)
    &&& match client.transport {
        Transport::SeqPacket => reads(events).len() == frames.len(),
        Transport::ByteStream => client.io.received + reads(events).flatten() == wires(frames),
    }
}

/// The frames that the reads of these events have completed, unless one of them was refused.
pub open spec fn delivered<'a>(
    client: ClientView,
    exchange: ExchangeView,
    events: Seq<Event<'a>>,
) -> Result<Seq<ResponseFrame>, ErrorView>
    decreases events.len(),
{
    if events.len() == 0 {
        Ok(Seq::empty())
    } else {
        let (before, _) = run(client, exchange, events.drop_last());
        match (delivered(client, exchange, events.drop_last()), events.last()) {
            (Ok(frames), Event::Received(Ok(bytes))) => match recv_step(
                before.transport,
                before.io.received,
                bytes@,
            ).1 {
                Err(err) => Err(err),
                Ok(None) => Ok(frames),
                Ok(Some(frame)) => Ok(frames.push(frame)),
            },
            (frames, _) => frames,
        }
    }
}

/// What the server sends is what the client reads, frame by frame and in order, whatever the transport
/// makes of it.
pub proof fn law_frames_are_delivered_as_sent<'a>(
    client: ClientView,
    exchange: ExchangeView,
    events: Seq<Event<'a>>,
    frames: Seq<ResponseFrame>,
)
    requires
        exchange.wf(),
        goes_well(client, exchange, events),
        arrives(client, events, frames),
    ensures
        ({
            let after = run(client, exchange, events).0;
            &&& delivered(client, exchange, events) matches Ok(done)
            &&& done.is_prefix_of(frames)
            &&& have_arrived(client, events, frames) ==> done == frames
            &&& match client.transport {
                Transport::SeqPacket => done.len() == reads(events).len() && after.io.received
                    == client.io.received,
                Transport::ByteStream => {
                    &&& wires(done) + after.io.received == client.io.received + reads(
                        events,
                    ).flatten()
                    &&& done.len() < frames.len() ==> after.io.received.len()
                        < frames[done.len() as int].wire().len()
                },
            }
        }),
    decreases events.len(),
{
    match client.transport {
        Transport::SeqPacket => lemma_datagrams_are_delivered(client, exchange, events, frames),
        Transport::ByteStream => lemma_stream_is_delivered(client, exchange, events, frames),
    }
    let done = delivered(client, exchange, events)->Ok_0;
    assert(done =~= frames.take(done.len() as int));
    lemma_wires(frames, done.len() as int);
    if done.len() == frames.len() {
        assert(done =~= frames);
    }
}

/// What an event that goes well does to what has arrived of the next response.
proof fn lemma_received_after<'a>(client: ClientView, exchange: ExchangeView, event: Event<'a>)
    requires
        exchange.wf(),
        is_good(client, exchange, event),
    ensures
        next(client, exchange, event).0.transport == client.transport,
        next(client, exchange, event).0.io.received == (match event {
            Event::Received(Ok(bytes)) => recv_step(
                client.transport,
                client.io.received,
                bytes@,
            ).0,
            _ => client.io.received,
        }),
        event matches Event::Received(Ok(bytes)) ==> bytes@.len() > 0 && (client.transport
            == Transport::ByteStream ==> bytes@.len() <= room(client.io.received)),
{
}

proof fn lemma_datagrams_are_delivered<'a>(
    client: ClientView,
    exchange: ExchangeView,
    events: Seq<Event<'a>>,
    frames: Seq<ResponseFrame>,
)
    requires
        client.transport == Transport::SeqPacket,
        exchange.wf(),
        goes_well(client, exchange, events),
        arrives(client, events, frames),
    ensures
        delivered(client, exchange, events) matches Ok(done) && done.is_prefix_of(frames)
            && done.len() == reads(events).len(),
        run(client, exchange, events).0.io.received == client.io.received,
    decreases events.len(),
{
    if events.len() > 0 {
        let first = events.drop_last();
        let (before, on) = run(client, exchange, first);
        law_requests_stay_well_formed(client, exchange, first);
        lemma_received_after(before, on, events.last());
        if let Event::Received(Ok(bytes)) = events.last() {
            assert forall|i: int| 0 <= i < reads(first).len() implies #[trigger] reads(first)[i]
                == frames[i].wire() by {
                assert(reads(events)[i] == reads(first)[i]);
            }
            lemma_datagrams_are_delivered(client, exchange, first, frames);
            let n = reads(first).len() as int;
            assert(reads(events)[n] == bytes@);
            law_datagram_read_back(frames[n]);
        } else {
            lemma_datagrams_are_delivered(client, exchange, first, frames);
        }
    }
}

proof fn lemma_stream_is_delivered<'a>(
    client: ClientView,
    exchange: ExchangeView,
    events: Seq<Event<'a>>,
    frames: Seq<ResponseFrame>,
)
    requires
        client.transport == Transport::ByteStream,
        exchange.wf(),
        goes_well(client, exchange, events),
        arrives(client, events, frames),
    ensures
        ({
            let after = run(client, exchange, events).0;
            &&& delivered(client, exchange, events) matches Ok(done)
            &&& done.is_prefix_of(frames)
            &&& wires(done) + after.io.received == client.io.received + reads(events).flatten()
            &&& done.len() < frames.len() ==> after.io.received.len()
                < frames[done.len() as int].wire().len()
        }),
    decreases events.len(),
{
    if events.len() == 0 {
        assert(wires(Seq::<ResponseFrame>::empty()) + client.io.received =~= client.io.received
            + reads(events).flatten());
    } else {
        let first = events.drop_last();
        let (before, on) = run(client, exchange, first);
        law_requests_stay_well_formed(client, exchange, first);
        lemma_received_after(before, on, events.last());
        if let Event::Received(Ok(bytes)) = events.last() {
            let all = reads(events);
            assert(all.drop_last() =~= reads(first));
            lemma_flatten_last(all);
            let got = client.io.received + reads(first).flatten();
            assert(client.io.received + all.flatten() =~= got + bytes@);
            assert(got =~= (got + bytes@).take(got.len() as int));
            assert(got.is_prefix_of(wires(frames)));
            lemma_stream_is_delivered(client, exchange, first, frames);
            let done = delivered(client, exchange, first)->Ok_0;
            lemma_piece_is_delivered(frames, done, before.io.received, bytes@);
        } else {
            lemma_stream_is_delivered(client, exchange, first, frames);
        }
    }
}

/// What a piece off a byte stream adds to the frames that have been read.
proof fn lemma_piece_is_delivered(
    frames: Seq<ResponseFrame>,
    done: Seq<ResponseFrame>,
    received: Seq<u8>,
    bytes: Seq<u8>,
)
    requires
        done.is_prefix_of(frames),
        (wires(done) + received + bytes).is_prefix_of(wires(frames)),
        done.len() < frames.len() ==> received.len() < frames[done.len() as int].wire().len(),
        0 < bytes.len() <= room(received),
    ensures
        ({
            let (held, result) = recv_step(Transport::ByteStream, received, bytes);
            let now = match result {
                Ok(Some(frame)) => done.push(frame),
                _ => done,
            };
            &&& result is Ok
            &&& now.is_prefix_of(frames)
            &&& wires(now) + held == wires(done) + received + bytes
            &&& now.len() < frames.len() ==> held.len() < frames[now.len() as int].wire().len()
        }),
{
    let n = done.len() as int;
    assert(done =~= frames.take(n));
    lemma_next_piece(frames, n, received, bytes);
    lemma_wires(frames, n);
    let held = recv_step(Transport::ByteStream, received, bytes).0;
    if received + bytes == frames[n].wire() {
        assert(done.push(frames[n]) =~= frames.take(n + 1));
        assert(wires(frames.take(n + 1)) + held =~= wires(done) + received + bytes);
        if n + 1 < frames.len() {
            lemma_wire_len(frames[n + 1]);
        }
    } else {
        assert(wires(done) + held =~= wires(done) + received + bytes);
    }
}

/// Whether one of these frames is the verdict on the request with this id.
pub open spec fn is_answered(frames: Seq<ResponseFrame>, request_id: u64) -> bool {
    exists|i: int|
        0 <= i < frames.len() && (#[trigger] frames[i] matches ResponseFrame::Ack {
            request_id: id,
            ..
        } && id == request_id)
}

/// Whether these frames are late responses to requests whose caller gave up, one to each, while
/// another response is awaited.
pub open spec fn are_late(
    abandoned: Set<u64>,
    expected: ExpectedResponse,
    frames: Seq<ResponseFrame>,
) -> bool {
    &&& forall|i: int|
        0 <= i < frames.len() ==> (#[trigger] frames[i] matches ResponseFrame::Ack {
            request_id,
            ..
        } && abandoned.contains(request_id) && expected != ExpectedResponse::Ack(request_id))
    &&& forall|i: int, j: int|
        0 <= i < j < frames.len() ==> (#[trigger] frames[i])->request_id != (
        #[trigger] frames[j])->request_id
}

/// A request that goes well, and on which the server sends any number of late responses and then the
/// answer, ends with that answer. Its frame goes out in any number of writes, the responses come off
/// either transport, and the late ones are discarded, each of them once. The request is over when, and
/// only when, the answer has been read; until then it neither fails nor ends. It puts out its frame and
/// nothing else, and the connection stays usable.
pub proof fn law_requests_end_with_their_answer<'a>(
    client: ClientView,
    kind: u32,
    payload: Seq<u8>,
    expected: ExpectedResponse,
    timeout: Option<Timeout>,
    exchange: ExchangeView,
    events: Seq<Event<'a>>,
    late: Seq<ResponseFrame>,
    answer: ResponseFrame,
    status: Option<MessageAck>,
)
    requires
        begin(client.io, kind, payload, Some(expected), timeout) == Ok::<_, ErrorView>(exchange),
        goes_well(client, exchange, events),
        are_late(client.io.abandoned, expected, late),
        answers(expected, answer) == Some(status),
        arrives(client, events, late.push(answer)),
    ensures
        ({
            let (after, over) = run(client, exchange, events);
            let done = delivered(client, exchange, events)->Ok_0;
            &&& delivered(client, exchange, events) is Ok
            &&& done.is_prefix_of(late.push(answer))
            &&& after.io.usable
            &&& match over.stage {
                StageView::Clearing(result) => result == Ok::<_, ErrorView>(status) && done
                    == late.push(answer),
                StageView::Done(result) => {
                    &&& result == Ok::<_, ErrorView>(status)
                    &&& done == late.push(answer)
                    &&& sent(client, exchange, events) == frame_wire(kind, payload)
                },
                _ => done.len() <= late.len(),
            }
            &&& have_arrived(client, events, late.push(answer)) ==> over.stage is Clearing
                || over.stage is Done
            &&& over.stage is Clearing || over.stage is Done ==> {
                &&& client.transport == Transport::ByteStream ==> after.io.received.len() == 0
                &&& forall|id: u64| #[trigger]
                    after.io.abandoned.contains(id) <==> client.io.abandoned.contains(id)
                        && !is_answered(late, id)
            }
        }),
{
    let frames = late.push(answer);
    law_requests_begin_well_formed(client.io, kind, payload, Some(expected), timeout);
    law_frames_are_delivered_as_sent(client, exchange, events, frames);
    lemma_request_ends_with_its_answer(client, exchange, events, expected, late, answer, status);
    law_requests_put_out_their_frame(client, exchange, events);
    let done = delivered(client, exchange, events)->Ok_0;
    if done.len() == frames.len() {
        assert(done =~= frames);
        assert(late.take(late.len() as int) =~= late);
        lemma_wires(frames, frames.len() as int);
        assert(frames.take(frames.len() as int) =~= frames);
    }
}

/// On a usable connection a crash request always begins, waits without a deadline, and gets its answer
/// behind any number of late responses to acknowledged messages: it ends well when, and only when, the
/// crash ack has been read, never with one of the late responses, and the connection stays usable. It
/// puts out the crash context, in one frame, and nothing else.
pub proof fn law_crash_requests_end_with_the_crash_ack<'a>(
    client: ClientView,
    crash_context: Seq<u8>,
    events: Seq<Event<'a>>,
    late: Seq<ResponseFrame>,
)
    requires
        client.io.usable,
        crash_context.len() <= u32::MAX,
        ({
            let exchange = ExchangeView::begun(
                frame_wire(CRASH, crash_context),
                Some(ExpectedResponse::CrashAck),
                None,
            );
            goes_well(client, exchange, events)
        }),
        are_late(client.io.abandoned, ExpectedResponse::CrashAck, late),
        arrives(client, events, late.push(ResponseFrame::CrashAck)),
    ensures
        ({
            let exchange = ExchangeView::begun(
                frame_wire(CRASH, crash_context),
                Some(ExpectedResponse::CrashAck),
                None,
            );
            let (after, over) = run(client, exchange, events);
            let frames = late.push(ResponseFrame::CrashAck);
            &&& begin(
                client.io,
                CRASH,
                crash_context,
                Some(ExpectedResponse::CrashAck),
                None,
            ) == Ok::<_, ErrorView>(exchange)
            &&& after.io.usable
            &&& over.stage is Clearing || over.stage is Done <==> delivered(
                client,
                exchange,
                events,
            ) == Ok::<_, ErrorView>(frames)
            &&& have_arrived(client, events, frames) ==> over.stage is Clearing || over.stage
                is Done
            &&& !(over.stage is Deadline) && !(over.stage is Clock)
            &&& over.stage matches StageView::Arming(left) ==> ReadTimeout::spec_of(
                left,
            ).is_unbounded()
            &&& over.stage matches StageView::Clearing(result) ==> result == Ok::<
                Option<MessageAck>,
                ErrorView,
            >(None)
            &&& over.stage matches StageView::Done(result) ==> {
                &&& result == Ok::<Option<MessageAck>, ErrorView>(None)
                &&& sent(client, exchange, events) == frame_wire(CRASH, crash_context)
                &&& forall|id: u64| #[trigger]
                    after.io.abandoned.contains(id) <==> client.io.abandoned.contains(id)
                        && !is_answered(late, id)
            }
        }),
{
    let expected = ExpectedResponse::CrashAck;
    let exchange = ExchangeView::begun(frame_wire(CRASH, crash_context), Some(expected), None);
    law_requests_begin_well_formed(client.io, CRASH, crash_context, Some(expected), None);
    law_unbounded_waits_stay_unbounded(client, exchange, events);
    law_requests_end_with_their_answer(
        client,
        CRASH,
        crash_context,
        expected,
        None,
        exchange,
        events,
        late,
        ResponseFrame::CrashAck,
        None,
    );
}

proof fn lemma_request_ends_with_its_answer<'a>(
    client: ClientView,
    exchange: ExchangeView,
    events: Seq<Event<'a>>,
    expected: ExpectedResponse,
    late: Seq<ResponseFrame>,
    answer: ResponseFrame,
    status: Option<MessageAck>,
)
    requires
        exchange.wf(),
        client.io.usable,
        exchange.stage is Sending,
        exchange.awaits == Some(expected),
        goes_well(client, exchange, events),
        are_late(client.io.abandoned, expected, late),
        answers(expected, answer) == Some(status),
        delivered(client, exchange, events) matches Ok(done) && done.is_prefix_of(
            late.push(answer),
        ),
    ensures
        ({
            let (after, over) = run(client, exchange, events);
            let done = delivered(client, exchange, events)->Ok_0;
            let dropped = if done.len() <= late.len() {
                done.len() as int
            } else {
                late.len() as int
            };
            &&& after.io.usable
            &&& match over.stage {
                StageView::Clearing(result) => result == Ok::<_, ErrorView>(status) && done.len()
                    == late.len() + 1,
                StageView::Done(result) => result == Ok::<_, ErrorView>(status) && done.len()
                    == late.len() + 1,
                _ => done.len() <= late.len(),
            }
            &&& forall|id: u64| #[trigger]
                after.io.abandoned.contains(id) <==> client.io.abandoned.contains(id)
                    && !is_answered(late.take(dropped), id)
        }),
    decreases events.len(),
{
    if events.len() > 0 {
        let first = events.drop_last();
        let (before, on) = run(client, exchange, first);
        let frames = late.push(answer);
        let done = delivered(client, exchange, events)->Ok_0;
        let old_done = delivered(client, exchange, first)->Ok_0;
        assert(old_done.is_prefix_of(done));
        lemma_request_ends_with_its_answer(
            client,
            exchange,
            first,
            expected,
            late,
            answer,
            status,
        );
        law_requests_stay_well_formed(client, exchange, first);
        if let Event::Received(Ok(bytes)) = events.last() {
            let n = old_done.len() as int;
            if done.len() == n + 1 && n < late.len() {
                assert(done[n] == frames[n] && frames[n] == late[n]);
                let id = late[n]->request_id;
                assert forall|j: int| 0 <= j < n implies (#[trigger] late[j])->request_id != id by {
                    assert(late[j]->request_id != late[n]->request_id);
                }
                assert(!is_answered(late.take(n), id)) by {
                    assert forall|j: int| 0 <= j < n implies late.take(n)[j] == late[j] by {}
                }
                assert forall|other: u64|
                    is_answered(late.take(n + 1), other) <==> is_answered(late.take(n), other)
                        || other == id by {
                    assert(late.take(n + 1)[n] == late[n]);
                    if is_answered(late.take(n), other) {
                        let j = choose|j: int|
                            0 <= j < late.take(n).len() && (
                            #[trigger] late.take(n)[j] matches ResponseFrame::Ack {
                                request_id,
                                ..
                            } && request_id == other);
                        assert(late.take(n + 1)[j] == late.take(n)[j]);
                    }
                    if is_answered(late.take(n + 1), other) && other != id {
                        let j = choose|j: int|
                            0 <= j < late.take(n + 1).len() && (
                            #[trigger] late.take(n + 1)[j] matches ResponseFrame::Ack {
                                request_id,
                                ..
                            } && request_id == other);
                        assert(late.take(n)[j] == late.take(n + 1)[j]);
                    }
                }
            } else if done.len() == n + 1 {
                assert(done[n] == frames[n] && frames[n] == answer);
            }
        }
    }
}

} // verus!
