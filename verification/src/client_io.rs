//! The state of a connection that outlives a single request.
use crate::error::{raise, result_view, Error, ErrorKind, ErrorView, IoError};
use crate::outgoing::{frame_wire, is_frame, send_frame, send_step, Payload, SendFrame};
use crate::response::{
    closed_mid_response, closed_while_pending, decode_datagram, frame_of_datagram, ExpectedResponse,
    ResponseFrame, RouteOutcome, DATAGRAM_SIZE,
};
use crate::stream::{room, stream_step, RecvView, ResponseRecvState};
use crate::wire::{MessageAck, HEADER_SIZE};
use std::collections::HashSet;
use vstd::prelude::*;

verus! {

/// How the socket delivers what the server sends.
#[derive(Copy, Clone, Debug, PartialEq, Eq, Structural)]
pub enum Transport {
    /// Whole datagrams, one frame each.
    SeqPacket,
    /// Bytes, split anywhere.
    ByteStream,
}

/// The state of a connection. Whoever holds it has the socket to themselves, so concurrent callers
/// can neither interleave their frames nor steal each other's responses.
pub struct ClientIo {
    /// What has arrived of the next response, where the transport is a byte stream.
    pub recv: ResponseRecvState,
    /// Requests whose caller gave up. Their responses may still be in flight and must be discarded
    /// instead of being mistaken for a protocol violation by whoever waits next, in practice the
    /// answer to the minidump request.
    pub abandoned_ack_ids: HashSet<u64>,
    /// Cleared once the frame boundary is no longer known, either because a response could not be
    /// decoded, or because a frame was only partly written. Reading or writing on from there can only
    /// produce garbage, so every later call fails instead.
    pub usable: bool,
}

/// The model of a [`ClientIo`].
#[verifier::ext_equal]
pub struct IoView {
    /// What has arrived of the next response.
    pub received: Seq<u8>,
    /// The requests whose caller gave up and whose response has not been seen.
    pub abandoned: Set<u64>,
    /// Whether the frame boundary is known.
    pub usable: bool,
}

impl View for ClientIo {
    type V = IoView;

    open spec fn view(&self) -> IoView {
        IoView {
            received: self.recv.received(),
            abandoned: self.abandoned_ack_ids@,
            usable: self.usable,
        }
    }
}

impl IoView {
    /// The state of a connection that has not been used yet.
    pub open spec fn fresh() -> IoView {
        IoView { received: Seq::empty(), abandoned: Set::empty(), usable: true }
    }

    /// The state once the frame boundary has been lost.
    pub open spec fn retired(self) -> IoView {
        IoView { usable: false, ..self }
    }

    /// The state once the caller of a request has given up.
    pub open spec fn abandoning(self, request_id: u64) -> IoView {
        IoView { abandoned: self.abandoned.insert(request_id), ..self }
    }
}

/// The failure of every request on a connection whose frame boundary is lost.
pub open spec fn unusable() -> ErrorView {
    ErrorView::Protocol("the IPC response stream is unusable"@)
}

/// The status with which a frame ends the wait for a response, if it does.
pub open spec fn answers(expected: ExpectedResponse, response: ResponseFrame) -> Option<
    Option<MessageAck>,
> {
    match (expected, response) {
        (
            ExpectedResponse::Ack(awaited),
            ResponseFrame::Ack { request_id, status },
        ) if awaited == request_id => Some(Some(status)),
        (ExpectedResponse::CrashAck, ResponseFrame::CrashAck) => Some(None),
        (ExpectedResponse::Pong, ResponseFrame::Pong) => Some(None),
        _ => None,
    }
}

/// What becomes of a frame, and of the connection: the awaited frame ends the wait, the response to
/// an abandoned request is discarded, and anything else is a breach of the protocol.
pub open spec fn route(io: IoView, expected: ExpectedResponse, response: ResponseFrame) -> (
    IoView,
    Result<RouteOutcome, ErrorView>,
) {
    match (answers(expected, response), response) {
        (Some(status), _) => (io, Ok(RouteOutcome::Complete(status))),
        (None, ResponseFrame::Ack { request_id, .. }) if io.abandoned.contains(request_id) => (
            IoView { abandoned: io.abandoned.remove(request_id), ..io },
            Ok(RouteOutcome::Discarded),
        ),
        _ => (
            io.retired(),
            Err(ErrorView::Protocol("received an unexpected IPC response"@)),
        ),
    }
}

/// What is held of a frame, and what is returned, once a read has delivered `bytes` behind the bytes
/// `received` of the frame. A read that delivers nothing means that the peer is gone.
pub open spec fn recv_step(transport: Transport, received: Seq<u8>, bytes: Seq<u8>) -> (
    Seq<u8>,
    Result<Option<ResponseFrame>, ErrorView>,
) {
    match transport {
        Transport::SeqPacket => (
            received,
            match frame_of_datagram(bytes) {
                Ok(frame) => Ok(Some(frame)),
                Err(err) => Err(err),
            },
        ),
        Transport::ByteStream => if bytes.len() == 0 {
            (
                received,
                Err(
                    if received.len() == 0 {
                        closed_while_pending()
                    } else {
                        closed_mid_response()
                    },
                ),
            )
        } else {
            stream_step(received, bytes)
        },
    }
}

impl ClientIo {
    /// The receive state is one that can come about and, while the connection is usable, one that
    /// reading can go on from: there is room for what has to arrive next.
    pub open spec fn wf(self) -> bool {
        &&& self.recv.valid()
        &&& self.usable ==> self.recv.wf()
    }

    /// How many bytes the next read may deliver.
    pub open spec fn spec_capacity(self, transport: Transport) -> nat {
        match transport {
            Transport::SeqPacket => DATAGRAM_SIZE as nat,
            Transport::ByteStream => self.recv.spare().len(),
        }
    }

    /// The receive state once a read has delivered `bytes`. Only what comes off a byte stream is kept.
    pub open spec fn recv_after(self, transport: Transport, bytes: Seq<u8>) -> RecvView {
        if transport == Transport::ByteStream && bytes.len() > 0 {
            self.recv@.taking_in(bytes).0
        } else {
            self.recv@
        }
    }

    /// The state of a new connection.
    pub fn new() -> (io: Self)
        ensures
            io.wf(),
            io@ == IoView::fresh(),
    {
        ClientIo { recv: ResponseRecvState::new(), abandoned_ack_ids: HashSet::new(), usable: true }
    }

    /// Fails once the frame boundary is lost.
    pub fn ensure_usable(&self) -> (usable: Result<(), Error>)
        ensures
            match usable {
                Ok(()) => self.usable,
                Err(err) => !self.usable && err@ == unusable(),
            },
    {
        if self.usable {
            Ok(())
        } else {
            Err(Error::ProtocolError("the IPC response stream is unusable"))
        }
    }

    /// Begins to write one whole frame. Protocol errors are raised before the socket is touched and
    /// leave the connection intact.
    pub fn write_frame<'a>(&self, kind: u32, payload: Payload<'a>) -> (frame: Result<
        SendFrame<'a>,
        Error,
    >)
        ensures
            match frame {
                Ok(frame) => {
                    &&& self.usable
                    &&& payload@.len() <= u32::MAX
                    &&& frame.wf()
                    &&& frame.unsent() == frame_wire(kind, payload@)
                    &&& is_frame(frame.unsent(), kind, payload@)
                    &&& frame.unsent().len() == HEADER_SIZE + payload@.len()
                },
                Err(err) => if self.usable {
                    payload@.len() > u32::MAX && err@ == ErrorView::Protocol(
                        "the payload is too large"@,
                    )
                } else {
                    err@ == unusable()
                },
            },
    {
        match self.ensure_usable() {
            Ok(()) => send_frame(kind, payload),
            Err(err) => Err(err),
        }
    }

    /// Takes note of what became of a write of the frame's buffers, giving up on the connection if
    /// the frame cannot be finished. True when the frame is out.
    ///
    /// A byte-stream write can fail after part of a frame is already out. There is no way to finish
    /// that frame afterwards, so appending the next one would silently desynchronise the server; the
    /// connection is retired instead.
    pub fn frame_written(&mut self, frame: &mut SendFrame, sent: Result<usize, IoError>) -> (complete:
        Result<bool, Error>)
        requires
            old(frame).wf(),
            old(frame).unsent().len() > 0,
        ensures
            final(frame).wf(),
            final(self).recv == old(self).recv,
            match send_step(old(frame).unsent(), sent) {
                Ok(unsent) => {
                    &&& complete == Ok::<_, Error>(unsent.len() == 0)
                    &&& final(frame).unsent() == unsent
                    &&& final(self)@ == old(self)@
                },
                Err(err) => {
                    &&& result_view(complete) == Err::<bool, _>(err)
                    &&& *final(frame) == *old(frame)
                    &&& final(self)@ == old(self)@.retired()
                },
            },
    {
        let complete = frame.advance(sent);
        if complete.is_err() {
            self.usable = false;
        }
        complete
    }

    /// Decides what becomes of a frame while `expected` is awaited.
    pub fn route_response(&mut self, expected: ExpectedResponse, response: ResponseFrame) -> (outcome:
        Result<RouteOutcome, Error>)
        ensures
            final(self).recv == old(self).recv,
            (final(self)@, result_view(outcome)) == route(old(self)@, expected, response),
            outcome == Ok::<_, Error>(RouteOutcome::Complete(None)) <==> {
                ||| expected == ExpectedResponse::CrashAck && response == ResponseFrame::CrashAck
                ||| expected == ExpectedResponse::Pong && response == ResponseFrame::Pong
            },
            outcome matches Ok(RouteOutcome::Complete(Some(_))) <==> (
            response matches ResponseFrame::Ack { request_id, .. } && expected
                == ExpectedResponse::Ack(request_id)),
            outcome matches Ok(RouteOutcome::Complete(Some(status))) ==> status == response->status,
            outcome == Ok::<_, Error>(RouteOutcome::Discarded) <==> (
            response matches ResponseFrame::Ack { request_id, .. } && expected
                != ExpectedResponse::Ack(request_id) && old(self).abandoned_ack_ids@.contains(
                request_id,
            )),
            final(self).usable == (old(self).usable && outcome is Ok),
    {
        broadcast use vstd::std_specs::hash::group_hash_axioms;

        match (expected, response) {
            (
                ExpectedResponse::Ack(awaited),
                ResponseFrame::Ack { request_id, status },
            ) if awaited == request_id => {
                return Ok(RouteOutcome::Complete(Some(status)));
            },
            (_, ResponseFrame::Ack { request_id, .. }) => {
                if self.abandoned_ack_ids.remove(&request_id) {
                    return Ok(RouteOutcome::Discarded);
                }
                assert(self.abandoned_ack_ids@ =~= old(self).abandoned_ack_ids@);
            },
            (ExpectedResponse::CrashAck, ResponseFrame::CrashAck) => {
                return Ok(RouteOutcome::Complete(None));
            },
            (ExpectedResponse::Pong, ResponseFrame::Pong) => {
                return Ok(RouteOutcome::Complete(None));
            },
            _ => {},
        }
        self.usable = false;
        Err(Error::ProtocolError("received an unexpected IPC response"))
    }

    /// Takes note that the caller of a request has given up.
    pub fn abandon(&mut self, request_id: u64)
        ensures
            final(self).recv == old(self).recv,
            final(self)@ == old(self)@.abandoning(request_id),
    {
        broadcast use vstd::std_specs::hash::group_hash_axioms;

        self.abandoned_ack_ids.insert(request_id);
    }

    /// How many bytes the next read may deliver.
    pub fn capacity(&self, transport: Transport) -> (capacity: usize)
        requires
            self.wf(),
        ensures
            capacity == self.spec_capacity(transport),
            transport == Transport::SeqPacket ==> capacity == 18,
            transport == Transport::ByteStream ==> capacity == self.recv.spare().len(),
            self.usable ==> capacity > 0,
            self.usable && transport == Transport::ByteStream ==> capacity == room(
                self@.received,
            ),
    {
        match transport {
            Transport::SeqPacket => DATAGRAM_SIZE,
            Transport::ByteStream => self.recv.missing(),
        }
    }

    /// Takes in what a read has delivered, and returns the frame that it completes, if it does.
    pub fn recv_next_frame(&mut self, transport: Transport, bytes: &[u8]) -> (frame: Result<
        Option<ResponseFrame>,
        Error,
    >)
        requires
            old(self).wf(),
            transport == Transport::ByteStream ==> bytes@.len() <= old(self).spec_capacity(
                transport,
            ),
        ensures
            final(self).recv.valid(),
            frame is Ok ==> final(self).wf(),
            final(self).usable == old(self).usable,
            final(self).abandoned_ack_ids == old(self).abandoned_ack_ids,
            final(self).recv@ == old(self).recv_after(transport, bytes@),
            (final(self).recv.received(), result_view(frame)) == recv_step(
                transport,
                old(self).recv.received(),
                bytes@,
            ),
    {
        match transport {
            Transport::SeqPacket => match decode_datagram(bytes) {
                Ok(frame) => Ok(Some(frame)),
                Err(err) => Err(err),
            },
            Transport::ByteStream => {
                if bytes.len() == 0 {
                    return Err(
                        raise(
                            ErrorKind::UnexpectedEof,
                            if self.recv.has_partial_frame() {
                                "the peer closed the connection mid-response"
                            } else {
                                "the peer closed the connection while a response was pending"
                            },
                        ),
                    );
                }
                self.recv.fill(bytes);
                assert(self.recv@.chunk(bytes.len() as int) =~= bytes@);
                self.recv.advance(bytes.len())
            },
        }
    }
}

/// What the model of a connection tells of it.
pub proof fn law_model_of_a_connection(io: ClientIo)
    ensures
        io@.usable == io.usable,
        io@.abandoned == io.abandoned_ack_ids@,
        io@.received == io.recv.received(),
{
}

/// A new connection is usable, awaits the response of no caller that gave up, and has received nothing.
pub proof fn law_new_connections_are_usable()
    ensures
        IoView::fresh().usable,
        IoView::fresh().received.len() == 0,
        forall|id: u64| !(#[trigger] IoView::fresh().abandoned.contains(id)),
{
}

/// To retire a connection loses nothing but its use, and to abandon a request adds nothing but its id.
pub proof fn law_connections_change_in_one_place(io: IoView, request_id: u64)
    ensures
        !io.retired().usable,
        io.retired().received == io.received,
        io.retired().abandoned == io.abandoned,
        io.abandoning(request_id).usable == io.usable,
        io.abandoning(request_id).received == io.received,
        io.abandoning(request_id).abandoned == io.abandoned.insert(request_id),
{
}

/// A response ends a wait exactly where it is the one that is awaited: the verdict on that very message,
/// with the status that it carries, the crash ack, or the answer to a ping.
pub proof fn law_waits_end_with_their_own_response(
    expected: ExpectedResponse,
    response: ResponseFrame,
)
    ensures
        match (expected, response) {
            (ExpectedResponse::Ack(awaited), ResponseFrame::Ack { request_id, status }) => answers(
                expected,
                response,
            ) == (if awaited == request_id {
                Some(Some(status))
            } else {
                None
            }),
            (ExpectedResponse::CrashAck, ResponseFrame::CrashAck) => answers(expected, response)
                == Some(None::<MessageAck>),
            (ExpectedResponse::Pong, ResponseFrame::Pong) => answers(expected, response) == Some(
                None::<MessageAck>,
            ),
            _ => answers(expected, response) is None,
        },
{
}

/// The awaited response is handed over and changes nothing. A response to a request whose caller gave
/// up is dropped, and with it the memory of that request. Anything else costs the connection.
pub proof fn law_every_response_goes_one_of_three_ways(
    io: IoView,
    expected: ExpectedResponse,
    response: ResponseFrame,
)
    ensures
        ({
            let (after, outcome) = route(io, expected, response);
            let late = response matches ResponseFrame::Ack { request_id, .. }
                && io.abandoned.contains(request_id);
            &&& after.received == io.received
            &&& answers(expected, response) matches Some(status) ==> after == io && outcome
                == Ok::<_, ErrorView>(RouteOutcome::Complete(status))
            &&& answers(expected, response) is None && late ==> {
                &&& outcome == Ok::<_, ErrorView>(RouteOutcome::Discarded)
                &&& after.usable == io.usable
                &&& after.abandoned == io.abandoned.remove(response->request_id)
            }
            &&& answers(expected, response) is None && !late ==> {
                &&& outcome == Err::<RouteOutcome, _>(
                    ErrorView::Protocol("received an unexpected IPC response"@),
                )
                &&& !after.usable
                &&& after.abandoned == io.abandoned
            }
        }),
{
}

/// A datagram is read by itself, and what is held off a byte stream stays. A byte stream is read behind
/// what is held; if it delivers nothing, the peer is gone, which is told apart by whether part of a
/// response is held.
pub proof fn law_reads_by_transport(received: Seq<u8>, bytes: Seq<u8>)
    ensures
        recv_step(Transport::SeqPacket, received, bytes).0 == received,
        frame_of_datagram(bytes) matches Ok(frame) ==> recv_step(
            Transport::SeqPacket,
            received,
            bytes,
        ).1 == Ok::<_, ErrorView>(Some(frame)),
        frame_of_datagram(bytes) matches Err(err) ==> recv_step(
            Transport::SeqPacket,
            received,
            bytes,
        ).1 == Err::<Option<ResponseFrame>, _>(err),
        bytes.len() > 0 ==> recv_step(Transport::ByteStream, received, bytes) == stream_step(
            received,
            bytes,
        ),
        bytes.len() == 0 ==> {
            let (held, result) = recv_step(Transport::ByteStream, received, bytes);
            &&& held == received
            &&& result matches Err(ErrorView::Io(err))
            &&& err.kind == ErrorKind::UnexpectedEof
            &&& err.code is None
            &&& err.message == if received.len() == 0 {
                "the peer closed the connection while a response was pending"@
            } else {
                "the peer closed the connection mid-response"@
            }
        },
{
}

} // verus!
