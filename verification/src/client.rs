//! The client side of the connection, which runs in the process that may (or has) crashed to
//! communicate with an external monitor process.
//!
//! The client itself touches no socket and reads no clock. Each request is an [`Exchange`] that says
//! what to do next, as an [`Action`], and is told what came of it, as an [`Event`].
use crate::bytes::{u32_bytes, u64_bytes};
use crate::client_io::{recv_step, route, unusable, ClientIo, IoView, Transport};
use crate::error::{result_view, timed_out, timeout_error, Error, ErrorKind, ErrorView, IoError};
use crate::outgoing::{frame_wire, is_frame, law_frame_layout, send_step, Payload, SendFrame};
use crate::response::{ExpectedResponse, RouteOutcome, DATAGRAM_SIZE};
use crate::socket_name::{abstract_address, path_address, path_bytes, SocketName};
use crate::stream::room;
use crate::timeout::{ReadTimeout, Timeout};
use crate::wire::{
    acked_message_wire, checked_user_kind, encode_acked_user_message, law_dump_request_unambiguous,
    DumpRequest, MessageAck, ACKED_USER_MESSAGE, CRASH, MAX_USER_KIND_EXCLUSIVE, PING, USER,
};
use crash_context::CrashContext;
use uds::UnixSocketAddr;
use vstd::prelude::*;
use vstd::utf8::encode_utf8;

verus! {

/// How far a request has come.
pub enum Stage {
    /// The frame is being written.
    Sending,
    /// The deadline for the response is to be fixed.
    Deadline,
    /// The time that is left until the deadline is to be looked up.
    Clock,
    /// The read timeout of the socket is to be set, so that the next read takes no longer than this.
    Arming(Option<Timeout>),
    /// A response is being read.
    Receiving,
    /// The wait is over. The read timeout of the socket is to be lifted before the connection is
    /// used again.
    Clearing(Result<Option<MessageAck>, Error>),
    /// The request is over.
    Done(Result<Option<MessageAck>, Error>),
}

/// The model of a [`Stage`].
pub enum StageView {
    Sending,
    Deadline,
    Clock,
    Arming(Option<Timeout>),
    Receiving,
    Clearing(Result<Option<MessageAck>, ErrorView>),
    Done(Result<Option<MessageAck>, ErrorView>),
}

impl View for Stage {
    type V = StageView;

    open spec fn view(&self) -> StageView {
        match self {
            Stage::Sending => StageView::Sending,
            Stage::Deadline => StageView::Deadline,
            Stage::Clock => StageView::Clock,
            Stage::Arming(timeout) => StageView::Arming(*timeout),
            Stage::Receiving => StageView::Receiving,
            Stage::Clearing(result) => StageView::Clearing(result_view(*result)),
            Stage::Done(result) => StageView::Done(result_view(*result)),
        }
    }
}

/// What has to be done for a request to get on.
pub enum Action<'a> {
    /// Write the two buffers to the socket, one behind the other.
    Send(&'a [u8], &'a [u8]),
    /// Fix the deadline that lies this far ahead.
    SetDeadline(Timeout),
    /// Look up how long it is until the deadline.
    CheckDeadline,
    /// Set the read timeout of the socket.
    SetReadTimeout(ReadTimeout),
    /// Read from the socket, up to this many bytes.
    Receive(usize),
    /// Nothing: the request is over.
    Finish,
}

/// What came of an [`Action`].
pub enum Event<'a> {
    /// The socket took this many bytes, or failed.
    Sent(Result<usize, IoError>),
    /// The deadline was fixed, unless it lies beyond what the clock can tell.
    DeadlineSet(bool),
    /// The time until the deadline, unless it has passed.
    Remaining(Option<Timeout>),
    /// The read timeout was set, or could not be.
    ReadTimeoutSet(Result<(), IoError>),
    /// The socket delivered these bytes, or failed.
    Received(Result<&'a [u8], IoError>),
}

/// A request on its way.
pub struct Exchange<'a> {
    frame: SendFrame<'a>,
    awaits: Option<ExpectedResponse>,
    timeout: Option<Timeout>,
    stage: Stage,
}

/// The model of an [`Exchange`].
pub struct ExchangeView {
    /// What is left to write of the frame.
    pub unsent: Seq<u8>,
    /// The response that the request waits for, if it waits for one.
    pub awaits: Option<ExpectedResponse>,
    /// How long it waits at most.
    pub timeout: Option<Timeout>,
    /// How far it has come.
    pub stage: StageView,
}

impl<'a> View for Exchange<'a> {
    type V = ExchangeView;

    closed spec fn view(&self) -> ExchangeView {
        ExchangeView {
            unsent: self.frame.unsent(),
            awaits: self.awaits,
            timeout: self.timeout,
            stage: self.stage@,
        }
    }
}

impl ExchangeView {
    /// A request that has just begun.
    pub open spec fn begun(
        frame: Seq<u8>,
        awaits: Option<ExpectedResponse>,
        timeout: Option<Timeout>,
    ) -> ExchangeView {
        ExchangeView { unsent: frame, awaits, timeout, stage: StageView::Sending }
    }

    /// The request at another stage.
    pub open spec fn at(self, stage: StageView) -> ExchangeView {
        ExchangeView { stage, ..self }
    }

    /// The whole frame is out and a response is awaited.
    pub open spec fn is_waiting(self) -> bool {
        self.unsent.len() == 0 && self.awaits is Some
    }

    /// There is something to write while the frame is being written. The wait for a response begins
    /// when the frame is out, and has a deadline to watch if it has a timeout. A request that has
    /// succeeded has written its frame, and has a verdict if it asked for one.
    pub open spec fn wf(self) -> bool {
        match self.stage {
            StageView::Sending => self.unsent.len() > 0,
            StageView::Deadline => self.is_waiting() && self.timeout is Some,
            StageView::Clock => self.is_waiting() && self.timeout is Some,
            StageView::Arming(left) => self.is_waiting() && (left is Some <==> self.timeout
                is Some),
            StageView::Receiving => self.is_waiting(),
            StageView::Clearing(_) => self.is_waiting(),
            StageView::Done(result) => result matches Ok(status) ==> {
                &&& self.unsent.len() == 0
                &&& self.awaits matches Some(ExpectedResponse::Ack(_)) ==> status is Some
            },
        }
    }
}

/// The client.
pub struct Client {
    /// The state of the connection.
    io: ClientIo,
    /// The id of the next acknowledged message.
    next_request_id: u64,
    /// How the socket delivers what the server sends.
    transport: Transport,
}

/// The model of a [`Client`].
pub struct ClientView {
    /// The state of the connection.
    pub io: IoView,
    /// The id of the next acknowledged message.
    pub next_request_id: u64,
    /// How the socket delivers what the server sends.
    pub transport: Transport,
}

impl View for Client {
    type V = ClientView;

    closed spec fn view(&self) -> ClientView {
        ClientView {
            io: self.io@,
            next_request_id: self.next_request_id,
            transport: self.transport,
        }
    }
}

impl ClientView {
    /// A client that has not been used yet.
    pub open spec fn fresh(transport: Transport) -> ClientView {
        ClientView { io: IoView::fresh(), next_request_id: 1, transport }
    }

    /// The client with its connection in another state.
    pub open spec fn with_io(self, io: IoView) -> ClientView {
        ClientView { io, ..self }
    }
}

/// The id behind an id.
pub open spec fn next_id(request_id: u64) -> u64 {
    if request_id == u64::MAX {
        0
    } else {
        (request_id + 1) as u64
    }
}

/// How a request begins: with the whole frame to be written, unless the connection is unusable or
/// the header cannot give the size of the payload.
pub open spec fn begin(
    io: IoView,
    kind: u32,
    payload: Seq<u8>,
    awaits: Option<ExpectedResponse>,
    timeout: Option<Timeout>,
) -> Result<ExchangeView, ErrorView> {
    if !io.usable {
        Err(unusable())
    } else if payload.len() > u32::MAX {
        Err(ErrorView::Protocol("the payload is too large"@))
    } else {
        Ok(ExchangeView::begun(frame_wire(kind, payload), awaits, timeout))
    }
}

/// How a message begins: unless its kind is reserved, with a frame of its own and no response to wait
/// for.
pub open spec fn begin_message(io: IoView, kind: u32, buf: Seq<u8>) -> Result<
    ExchangeView,
    ErrorView,
> {
    if kind >= MAX_USER_KIND_EXCLUSIVE {
        Err(ErrorView::Protocol("user message kind is reserved"@))
    } else {
        begin(io, (USER + kind) as u32, buf, None, None)
    }
}

/// The model of the beginning of a request.
pub open spec fn begun_view(exchange: Result<Exchange, Error>) -> Result<ExchangeView, ErrorView> {
    match exchange {
        Ok(exchange) => Ok(exchange@),
        Err(err) => Err(err@),
    }
}

/// How an acknowledged message begins, and what becomes of the client. The id of the message is taken
/// once nothing but the size of the message can stand in its way.
pub open spec fn begin_acked(client: ClientView, kind: u32, buf: Seq<u8>, timeout: Timeout) -> (
    Result<ExchangeView, ErrorView>,
    ClientView,
) {
    let request_id = client.next_request_id;
    if kind >= MAX_USER_KIND_EXCLUSIVE {
        (Err(ErrorView::Protocol("user message kind is reserved"@)), client)
    } else if !client.io.usable {
        (Err(unusable()), client)
    } else {
        let begun = begin(
            client.io,
            ACKED_USER_MESSAGE,
            acked_message_wire(request_id, kind, buf),
            Some(ExpectedResponse::Ack(request_id)),
            Some(timeout),
        );
        (
            begun,
            ClientView {
                io: if begun is Ok {
                    client.io
                } else {
                    client.io.abandoning(request_id)
                },
                next_request_id: next_id(request_id),
                ..client
            },
        )
    }
}

/// The kinds of failure after which a wait that has a deadline reads on.
pub open spec fn is_transient(kind: ErrorKind) -> bool {
    kind == ErrorKind::WouldBlock || kind == ErrorKind::TimedOut || kind == ErrorKind::Interrupted
}

/// The request about to read, with the deadline to be looked at first if there is one.
pub open spec fn turn(exchange: ExchangeView) -> ExchangeView {
    exchange.at(
        if exchange.timeout is Some {
            StageView::Clock
        } else {
            StageView::Arming(None)
        },
    )
}

/// The request once its frame is out, and once its deadline is fixed if it has one.
pub open spec fn begin_wait(client: ClientView, exchange: ExchangeView) -> ExchangeView {
    if client.io.usable {
        turn(exchange)
    } else {
        exchange.at(StageView::Clearing(Err(unusable())))
    }
}

/// The end of a request. A failed request whose response may still come is abandoned.
pub open spec fn conclude(
    client: ClientView,
    exchange: ExchangeView,
    result: Result<Option<MessageAck>, ErrorView>,
) -> (ClientView, ExchangeView) {
    match exchange.awaits {
        Some(ExpectedResponse::Ack(request_id)) => match result {
            Ok(Some(_)) => (client, exchange.at(StageView::Done(result))),
            Ok(None) => (
                client.with_io(client.io.abandoning(request_id)),
                exchange.at(
                    StageView::Done(
                        Err(
                            ErrorView::Protocol("acknowledged user message returned no status"@),
                        ),
                    ),
                ),
            ),
            Err(_) => (
                client.with_io(client.io.abandoning(request_id)),
                exchange.at(StageView::Done(result)),
            ),
        },
        _ => (client, exchange.at(StageView::Done(result))),
    }
}

/// What a read that delivered `bytes` does. A response that dribbles in over several reads is held to
/// the deadline between them.
pub open spec fn on_received(
    client: ClientView,
    exchange: ExchangeView,
    expected: ExpectedResponse,
    bytes: Seq<u8>,
) -> (ClientView, ExchangeView) {
    let (received, returned) = recv_step(client.transport, client.io.received, bytes);
    let io = IoView { received, ..client.io };
    match returned {
        Err(err) => (client.with_io(io.retired()), exchange.at(StageView::Clearing(Err(err)))),
        Ok(None) => (
            client.with_io(io),
            if exchange.timeout is Some {
                turn(exchange)
            } else {
                exchange
            },
        ),
        Ok(Some(frame)) => {
            let (routed, outcome) = route(io, expected, frame);
            (
                client.with_io(routed),
                match outcome {
                    Err(err) => exchange.at(StageView::Clearing(Err(err))),
                    Ok(RouteOutcome::Discarded) => turn(exchange),
                    Ok(RouteOutcome::Complete(status)) => exchange.at(
                        StageView::Clearing(Ok(status)),
                    ),
                },
            )
        },
    }
}

/// How a request and the client get on with an event. An event that answers another action than the
/// one that is due changes nothing.
pub open spec fn next(client: ClientView, exchange: ExchangeView, event: Event) -> (
    ClientView,
    ExchangeView,
) {
    match (exchange.stage, event) {
        (StageView::Sending, Event::Sent(sent)) => match send_step(exchange.unsent, sent) {
            Err(err) => conclude(client.with_io(client.io.retired()), exchange, Err(err)),
            Ok(unsent) => {
                let exchange = ExchangeView { unsent, ..exchange };
                if unsent.len() > 0 {
                    (client, exchange)
                } else if exchange.awaits is None {
                    conclude(client, exchange, Ok(None))
                } else if exchange.timeout is Some {
                    (client, exchange.at(StageView::Deadline))
                } else {
                    (client, begin_wait(client, exchange))
                }
            },
        },
        (StageView::Deadline, Event::DeadlineSet(fixed)) => if fixed {
            (client, begin_wait(client, exchange))
        } else {
            conclude(
                client,
                exchange,
                Err(ErrorView::Protocol("the response deadline overflowed"@)),
            )
        },
        (StageView::Clock, Event::Remaining(left)) => match left {
            Some(_) => (client, exchange.at(StageView::Arming(left))),
            None => (client, exchange.at(StageView::Clearing(Err(timed_out())))),
        },
        (StageView::Arming(_), Event::ReadTimeoutSet(set)) => match set {
            Ok(()) => (client, exchange.at(StageView::Receiving)),
            Err(err) => (client, exchange.at(StageView::Clearing(Err(ErrorView::Io(err@))))),
        },
        (StageView::Receiving, Event::Received(received)) => match (received, exchange.awaits) {
            (Err(err), _) => if exchange.timeout is Some && is_transient(err.kind) {
                (client, turn(exchange))
            } else {
                (
                    client.with_io(client.io.retired()),
                    exchange.at(StageView::Clearing(Err(ErrorView::Io(err@)))),
                )
            },
            (Ok(bytes), Some(expected)) => on_received(client, exchange, expected, bytes@),
            (Ok(_), None) => (client, exchange),
        },
        (StageView::Clearing(result), Event::ReadTimeoutSet(set)) => match set {
            Ok(()) => conclude(client, exchange, result),
            Err(err) => conclude(
                client.with_io(client.io.retired()),
                exchange,
                match result {
                    Ok(_) => Err(ErrorView::Io(err@)),
                    Err(_) => result,
                },
            ),
        },
        _ => (client, exchange),
    }
}

impl<'a> Exchange<'a> {
    /// The request is one that can get on.
    pub closed spec fn wf(self) -> bool {
        self.frame.wf() && self@.wf()
    }

    /// A request that can get on has a model that is well-formed.
    pub proof fn law_model_is_well_formed(self)
        requires
            self.wf(),
        ensures
            self@.wf(),
    {
    }

    /// Whether the request is over.
    pub fn is_done(&self) -> (done: bool)
        ensures
            done == (self@.stage is Done),
    {
        match self.stage {
            Stage::Done(_) => true,
            _ => false,
        }
    }

    /// What came of the request: the handler's verdict where one was asked for, nothing otherwise.
    pub fn finish(self) -> (result: Result<Option<MessageAck>, Error>)
        requires
            self.wf(),
            self@.stage is Done,
        ensures
            self@.wf(),
            self@.stage == StageView::Done(result_view(result)),
            result matches Ok(status) ==> (self@.awaits matches Some(ExpectedResponse::Ack(_))
                ==> status is Some),
    {
        match self.stage {
            Stage::Done(result) => result,
            _ => Ok(None),
        }
    }

    /// Goes on to read, looking at the deadline first if there is one.
    fn turn(&mut self)
        requires
            old(self).frame.wf(),
            old(self)@.is_waiting(),
        ensures
            final(self).wf(),
            final(self)@ == turn(old(self)@),
    {
        self.stage =
        if self.timeout.is_some() {
            Stage::Clock
        } else {
            Stage::Arming(None)
        };
    }

    /// Lets go of a request that has failed, or whose response has arrived.
    fn conclude(&mut self, client: &mut Client, result: Result<Option<MessageAck>, Error>)
        requires
            old(self).frame.wf(),
            result is Ok ==> old(self)@.unsent.len() == 0,
        ensures
            final(self).frame == old(self).frame,
            final(self)@.wf(),
            final(client).io.recv == old(client).io.recv,
            (final(client)@, final(self)@) == conclude(old(client)@, old(self)@, result_view(result)),
    {
        let result = match self.awaits {
            Some(ExpectedResponse::Ack(request_id)) => {
                let result = match result {
                    Ok(Some(status)) => Ok(Some(status)),
                    Ok(None) => Err(
                        Error::ProtocolError("acknowledged user message returned no status"),
                    ),
                    Err(err) => Err(err),
                };
                if result.is_err() {
                    client.io.abandon(request_id);
                }
                result
            },
            _ => result,
        };
        self.stage = Stage::Done(result);
    }
}

/// How long a crash request waits for another caller to finish with the socket.
///
/// It has to be bounded: the crash may have interrupted the very thread that has the connection to
/// itself. Waiting a little first still lets an ordinary message complete, which is the difference
/// between losing a minidump and merely delaying it.
pub fn crash_request_lock_timeout() -> (timeout: Timeout)
    ensures
        timeout == (Timeout { secs: 5, nanos: 0 }),
{
    Timeout { secs: 5, nanos: 0 }
}

/// Raises the failure of a crash request for which another caller did not finish in time.
pub fn busy_error() -> (err: Error)
    ensures
        err@ == ErrorView::Protocol(
            "the IPC client was still busy when the crash request arrived"@,
        ),
{
    Error::ProtocolError("the IPC client was still busy when the crash request arrived")
}

/// The context of a crash.
#[verifier::external_type_specification]
#[verifier::external_body]
pub struct ExCrashContext(crash_context::CrashContext);

/// Whether these bytes can be what `CrashContext::as_bytes` gives for a crash context: its memory, in
/// which the bytes between the fields can be anything.
pub uninterp spec fn is_memory_of(bytes: Seq<u8>, crash_context: &CrashContext) -> bool;

/// `CrashContext::as_bytes` gives the memory of a crash context, all of it. A crash context is made of
/// integers, pointers and arrays of a fixed length, some kilobytes on every platform that has it, so
/// that the number of the bytes fits a `u32`. What the bytes are is not said beyond their number: the
/// layout and the bytes between the fields are the machine's.
#[verifier::external_body]
fn crash_context_bytes(crash_context: &CrashContext) -> (bytes: &[u8])
    ensures
        is_memory_of(bytes@, crash_context),
        bytes@.len() == vstd::layout::size_of::<CrashContext>(),
        bytes@.len() <= u32::MAX,
{
    crash_context.as_bytes()
}

impl Client {
    /// The connection is one that requests can be made on.
    pub closed spec fn wf(self) -> bool {
        self.io.wf()
    }

    /// How many bytes the next read may deliver.
    pub closed spec fn capacity(self) -> nat {
        self.io.spec_capacity(self.transport)
    }

    /// Whether an event can come of reading into the room that [`Action::Receive`] gives: a byte
    /// stream delivers no more than there is room for.
    pub open spec fn can_take(self, event: Event) -> bool {
        event matches Event::Received(Ok(bytes)) ==> (self@.transport == Transport::ByteStream
            ==> bytes@.len() <= self.capacity())
    }

    /// Every event can be taken but for more bytes off a byte stream than there is room for.
    pub proof fn law_events_that_can_be_taken(self, event: Event)
        ensures
            !(event is Received) ==> self.can_take(event),
            self@.transport == Transport::SeqPacket ==> self.can_take(event),
            event matches Event::Received(Err(_)) ==> self.can_take(event),
            event matches Event::Received(Ok(bytes)) ==> (bytes@.len() <= self.capacity()
                ==> self.can_take(event)),
    {
    }

    /// A client whose connection has just been made.
    pub fn new(transport: Transport) -> (client: Client)
        ensures
            client.wf(),
            client@ == ClientView::fresh(transport),
            client@.io.usable,
            client@.io.received.len() == 0,
            forall|id: u64| !(#[trigger] client@.io.abandoned.contains(id)),
            client@.next_request_id == 1,
            client@.transport == transport,
    {
        Client { io: ClientIo::new(), next_request_id: 1, transport }
    }

    /// The state of the connection.
    pub fn io(&self) -> (io: &ClientIo)
        ensures
            io@ == self@.io,
            self.wf() ==> io.wf(),
    {
        &self.io
    }

    /// Creates a new client with the given name, and the address that it is to be connected to.
    ///
    /// # Errors
    ///
    /// The specified socket name is invalid
    pub fn with_name<'scope>(sn: SocketName<'scope>) -> (named: Result<
        (UnixSocketAddr, Client),
        Error,
    >)
        ensures
            match named {
                Ok((address, client)) => {
                    &&& sn.spec_address() == Some(address)
                    &&& client.wf()
                    &&& client@ == ClientView::fresh(Transport::SeqPacket)
                },
                Err(err) => sn.spec_address() is None && err@ == ErrorView::InvalidName,
            },
            sn matches SocketName::Abstract(name) ==> (named is Ok <==> encode_utf8(name@).len()
                <= 107),
            sn matches SocketName::Abstract(name) ==> (named matches Ok((address, _)) ==> address
                == abstract_address(encode_utf8(name@))),
            sn matches SocketName::Path(path) ==> (named is Ok <==> 0 < path_bytes(path).len() <= 108
                && !path_bytes(path).contains(0)),
            sn matches SocketName::Path(path) ==> (named matches Ok((address, _)) ==> address
                == path_address(path_bytes(path))),
            named matches Ok((_, client)) ==> client@.io.usable && client@.next_request_id == 1
                && client@.transport == Transport::SeqPacket,
    {
        match sn.address() {
            Ok(address) => Ok((address, Client::new(Transport::SeqPacket))),
            Err(err) => Err(err),
        }
    }

    /// Begins a request with the frame that it writes.
    fn begin<'a>(
        &self,
        kind: u32,
        payload: Payload<'a>,
        awaits: Option<ExpectedResponse>,
        timeout: Option<Timeout>,
    ) -> (exchange: Result<Exchange<'a>, Error>)
        ensures
            exchange matches Ok(exchange) ==> exchange.wf() && exchange@.wf(),
            begun_view(exchange) == begin(self@.io, kind, payload@, awaits, timeout),
            exchange is Ok <==> self@.io.usable && payload@.len() <= u32::MAX,
            exchange matches Ok(exchange) ==> {
                &&& is_frame(exchange@.unsent, kind, payload@)
                &&& exchange@.awaits == awaits
                &&& exchange@.timeout == timeout
                &&& exchange@.stage is Sending
            },
    {
        proof {
            if payload@.len() <= u32::MAX {
                law_frame_layout(kind, payload@);
            }
        }
        match self.io.write_frame(kind, payload) {
            Ok(frame) => Ok(Exchange { frame, awaits, timeout, stage: Stage::Sending }),
            Err(err) => Err(err),
        }
    }

    /// Requests that the server generate a minidump for the crash context that these bytes hold. The
    /// request is over when the server has finished writing the minidump.
    ///
    /// Writing the minidump is unbounded, so the wait for its end is too; a late response to an
    /// acknowledged message is discarded rather than mistaken for the crash ack.
    ///
    /// # Errors
    ///
    /// The connection is unusable, or there are more bytes than the header of a frame, which has a
    /// `u32` for it, can give
    pub fn request_dump_of<'a>(&self, crash_context: &'a [u8]) -> (exchange: Result<
        Exchange<'a>,
        Error,
    >)
        ensures
            exchange matches Ok(exchange) ==> exchange.wf() && exchange@.wf(),
            begun_view(exchange) == begin(
                self@.io,
                CRASH,
                crash_context@,
                Some(ExpectedResponse::CrashAck),
                None,
            ),
            exchange is Ok <==> self@.io.usable && crash_context@.len() <= u32::MAX,
            exchange matches Ok(exchange) ==> {
                &&& is_frame(exchange@.unsent, 0, crash_context@)
                &&& exchange@.awaits == Some(ExpectedResponse::CrashAck)
                &&& exchange@.timeout is None
                &&& exchange@.stage is Sending
            },
    {
        self.begin(
            CRASH,
            Payload::Borrowed(crash_context),
            Some(ExpectedResponse::CrashAck),
            None,
        )
    }

    /// Requests that the server generate a minidump for the specified crash context.
    ///
    /// This uses a [`CrashContext`] by reference as the size of it can be larger than one would want
    /// in an alternate stack handler, the use of a reference allows the context to be stored outside
    /// of the stack and heap to avoid that complication, though you may of course generate one
    /// however you like.
    ///
    /// # Errors
    ///
    /// The connection is unusable
    pub fn request_dump<'a>(&self, crash_context: &'a CrashContext) -> (exchange: Result<
        Exchange<'a>,
        Error,
    >)
        ensures
            exchange is Ok <==> self@.io.usable,
            exchange matches Ok(exchange) ==> exchange.wf() && exchange@.wf(),
            exists|bytes: Seq<u8>|
                {
                    &&& #[trigger] is_memory_of(bytes, crash_context)
                    &&& bytes.len() == vstd::layout::size_of::<CrashContext>()
                    &&& bytes.len() <= u32::MAX
                    &&& begun_view(exchange) == begin(
                        self@.io,
                        CRASH,
                        bytes,
                        Some(ExpectedResponse::CrashAck),
                        None,
                    )
                    &&& exchange matches Ok(exchange) ==> is_frame(exchange@.unsent, 0, bytes)
                },
            exchange matches Ok(exchange) ==> {
                &&& exchange@.awaits == Some(ExpectedResponse::CrashAck)
                &&& exchange@.timeout is None
                &&& exchange@.stage is Sending
            },
    {
        let bytes = crash_context_bytes(crash_context);
        assert(is_memory_of(bytes@, crash_context));
        self.request_dump_of(bytes)
    }

    /// Requests that the server generate a minidump for a crash that it can look up in the memory of
    /// this process, as Windows allows.
    ///
    /// # Errors
    ///
    /// The connection is unusable
    pub fn request_dump_at(&self, request: &DumpRequest) -> (exchange: Result<
        Exchange<'static>,
        Error,
    >)
        ensures
            exchange is Ok <==> self@.io.usable,
            exchange matches Ok(exchange) ==> exchange.wf() && exchange@.wf(),
            begun_view(exchange) == begin(
                self@.io,
                CRASH,
                request.wire(),
                Some(ExpectedResponse::CrashAck),
                None,
            ),
            exchange matches Ok(exchange) ==> {
                &&& is_frame(exchange@.unsent, 0, request.wire())
                &&& exchange@.awaits == Some(ExpectedResponse::CrashAck)
                &&& exchange@.timeout is None
                &&& exchange@.stage is Sending
            },
    {
        proof {
            law_dump_request_unambiguous(*request, *request);
        }
        self.begin(
            CRASH,
            Payload::Owned(request.encode()),
            Some(ExpectedResponse::CrashAck),
            None,
        )
    }

    /// Sends a message to the server, so that users can send their own application specific messages
    /// to the monitor process.
    ///
    /// It is recommended to keep the message reasonably sized, eg. below 64KiB, as different targets
    /// will have different limits for the maximum payload that can be delivered.
    ///
    /// Note that this only guarantees the message reached the socket, not that the server did
    /// anything with it. Use [`Self::send_message_acked`] when the answer matters.
    ///
    /// # Errors
    ///
    /// The connection is unusable, `kind` is in the reserved range, or the message is so large that
    /// the header of its frame, which has a `u32` for it, cannot give its size
    pub fn send_message<'a>(&self, kind: u32, buf: &'a [u8]) -> (exchange: Result<
        Exchange<'a>,
        Error,
    >)
        ensures
            exchange matches Ok(exchange) ==> exchange.wf() && exchange@.wf(),
            begun_view(exchange) == begin_message(self@.io, kind, buf@),
            exchange is Ok <==> kind < 0xffff_fffa && self@.io.usable && buf@.len() <= u32::MAX,
            exchange matches Ok(exchange) ==> {
                &&& is_frame(exchange@.unsent, (4 + kind) as u32, buf@)
                &&& exchange@.awaits is None
                &&& exchange@.timeout is None
                &&& exchange@.stage is Sending
            },
            exchange matches Err(err) ==> err@ == ErrorView::Protocol(
                if kind >= 0xffff_fffa {
                    "user message kind is reserved"@
                } else if !self@.io.usable {
                    "the IPC response stream is unusable"@
                } else {
                    "the payload is too large"@
                },
            ),
    {
        let wire_kind = match checked_user_kind(kind) {
            Ok(wire_kind) => wire_kind,
            Err(err) => return Err(err),
        };
        self.begin(wire_kind, Payload::Borrowed(buf), None, None)
    }

    /// Sends a message to the server and waits for the handler's verdict on it.
    ///
    /// Unlike [`Self::send_message`], an [`MessageAck::Accepted`] answer is a statement by the server
    /// handler that it has taken ownership of the message. Any other outcome, a timeout among them,
    /// means the caller must assume the server did not.
    ///
    /// # Errors
    ///
    /// The connection is unusable, `kind` is in the reserved range, or the message is so large that
    /// the header of its frame, which has a `u32` for it and what goes ahead of it, cannot give its
    /// size
    pub fn send_message_acked(&mut self, kind: u32, buf: &[u8], timeout: Timeout) -> (exchange:
        Result<Exchange<'static>, Error>)
        ensures
            exchange matches Ok(exchange) ==> exchange.wf() && exchange@.wf(),
            old(self).wf() ==> final(self).wf(),
            final(self).capacity() == old(self).capacity(),
            (begun_view(exchange), final(self)@) == begin_acked(old(self)@, kind, buf@, timeout),
            exchange is Ok <==> kind < 0xffff_fffa && old(self)@.io.usable && buf@.len() + 12
                <= u32::MAX,
            exchange matches Ok(exchange) ==> {
                let request_id = old(self)@.next_request_id;
                &&& is_frame(
                    exchange@.unsent,
                    0xffff_fffe,
                    u64_bytes(request_id) + u32_bytes(kind) + buf@,
                )
                &&& exchange@.awaits == Some(ExpectedResponse::Ack(request_id))
                &&& exchange@.timeout == Some(timeout)
                &&& exchange@.stage is Sending
                &&& final(self)@.io == old(self)@.io
                &&& final(self)@.next_request_id == (request_id + 1) % 0x1_0000_0000_0000_0000
            },
            exchange matches Err(err) ==> err@ == ErrorView::Protocol(
                if kind >= 0xffff_fffa {
                    "user message kind is reserved"@
                } else if !old(self)@.io.usable {
                    "the IPC response stream is unusable"@
                } else {
                    "the payload is too large"@
                },
            ),
            final(self)@.io.usable == old(self)@.io.usable,
            final(self)@.transport == old(self)@.transport,
    {
        match checked_user_kind(kind) {
            Ok(_) => {},
            Err(err) => return Err(err),
        }
        match self.io.ensure_usable() {
            Ok(()) => {},
            Err(err) => return Err(err),
        }
        let request_id: u64 = self.next_request_id;
        self.next_request_id = request_id.wrapping_add(1);
        let payload = encode_acked_user_message(request_id, kind, buf);
        assert(payload@ =~= u64_bytes(request_id) + u32_bytes(kind) + buf@);
        let exchange = self.begin(
            ACKED_USER_MESSAGE,
            Payload::Owned(payload),
            Some(ExpectedResponse::Ack(request_id)),
            Some(timeout),
        );
        if exchange.is_err() {
            self.io.abandon(request_id);
        }
        exchange
    }

    /// Sends a ping to the server, to keep it from reaping connections that haven't sent a message
    /// within its keep alive window
    ///
    /// # Errors
    ///
    /// The connection is unusable
    pub fn ping(&self) -> (exchange: Result<Exchange<'static>, Error>)
        ensures
            exchange is Ok <==> self@.io.usable,
            exchange matches Ok(exchange) ==> exchange.wf() && exchange@.wf(),
            begun_view(exchange) == begin(
                self@.io,
                PING,
                Seq::empty(),
                Some(ExpectedResponse::Pong),
                None,
            ),
            exchange matches Ok(exchange) ==> {
                &&& is_frame(exchange@.unsent, 2, Seq::empty())
                &&& exchange@.awaits == Some(ExpectedResponse::Pong)
                &&& exchange@.timeout is None
                &&& exchange@.stage is Sending
            },
    {
        self.begin(PING, Payload::Owned(Vec::new()), Some(ExpectedResponse::Pong), None)
    }

    /// What has to be done for the request to get on.
    pub fn action<'a>(&self, exchange: &'a Exchange<'_>) -> (action: Action<'a>)
        requires
            self.wf(),
            exchange.wf(),
        ensures
            match exchange@.stage {
                StageView::Sending => action matches Action::Send(header, payload) && header@
                    + payload@ == exchange@.unsent,
                StageView::Deadline => action matches Action::SetDeadline(timeout) && Some(timeout)
                    == exchange@.timeout,
                StageView::Clock => action is CheckDeadline,
                StageView::Arming(left) => action == Action::SetReadTimeout(
                    ReadTimeout::spec_of(left),
                ),
                StageView::Receiving => action matches Action::Receive(capacity) && {
                    &&& capacity == self.capacity()
                    &&& self@.io.usable ==> capacity > 0
                    &&& self@.transport == Transport::SeqPacket ==> capacity == DATAGRAM_SIZE
                    &&& self@.transport == Transport::SeqPacket ==> capacity == 18
                    &&& self@.io.usable && self@.transport == Transport::ByteStream ==> capacity
                        == room(self@.io.received)
                },
                StageView::Clearing(_) => action == Action::SetReadTimeout(
                    ReadTimeout::spec_of(None),
                ),
                StageView::Done(_) => action is Finish,
            },
    {
        match (&exchange.stage, exchange.timeout) {
            (Stage::Sending, _) => {
                let (header, payload) = exchange.frame.buffers();
                Action::Send(header, payload)
            },
            (Stage::Deadline, Some(timeout)) => Action::SetDeadline(timeout),
            (Stage::Clock, _) => Action::CheckDeadline,
            (Stage::Arming(left), _) => Action::SetReadTimeout(ReadTimeout::of(*left)),
            (Stage::Receiving, _) => Action::Receive(self.io.capacity(self.transport)),
            (Stage::Clearing(_), _) => Action::SetReadTimeout(ReadTimeout::of(None)),
            _ => Action::Finish,
        }
    }

    /// Lets the request, and with it the client, get on with what came of the [`Self::action`].
    pub fn step(&mut self, exchange: &mut Exchange, event: Event)
        requires
            old(self).wf(),
            old(exchange).wf(),
            old(self).can_take(event),
        ensures
            final(self).wf(),
            final(exchange).wf(),
            final(exchange)@.wf(),
            (final(self)@, final(exchange)@) == next(old(self)@, old(exchange)@, event),
    {
        let mut stage = Stage::Done(Ok(None));
        std::mem::swap(&mut stage, &mut exchange.stage);
        match (stage, event) {
            (Stage::Sending, Event::Sent(sent)) => {
                exchange.stage = Stage::Sending;
                match self.io.frame_written(&mut exchange.frame, sent) {
                    Ok(true) => self.wait_for(exchange),
                    Ok(false) => {},
                    Err(err) => exchange.conclude(self, Err(err)),
                }
            },
            (Stage::Deadline, Event::DeadlineSet(fixed)) => {
                if fixed {
                    self.begin_wait(exchange);
                } else {
                    exchange.conclude(
                        self,
                        Err(Error::ProtocolError("the response deadline overflowed")),
                    );
                }
            },
            (Stage::Clock, Event::Remaining(left)) => {
                exchange.stage = match left {
                    Some(_) => Stage::Arming(left),
                    None => Stage::Clearing(Err(timeout_error())),
                };
            },
            (Stage::Arming(_), Event::ReadTimeoutSet(set)) => {
                exchange.stage = match set {
                    Ok(()) => Stage::Receiving,
                    Err(err) => Stage::Clearing(Err(Error::Io(err))),
                };
            },
            (Stage::Receiving, Event::Received(received)) => {
                exchange.stage = Stage::Receiving;
                self.wait_for_inner(exchange, received);
            },
            (Stage::Clearing(result), Event::ReadTimeoutSet(set)) => {
                let result = match set {
                    Ok(()) => result,
                    Err(err) => {
                        self.io.usable = false;
                        match result {
                            Ok(_) => Err(Error::Io(err)),
                            Err(first) => Err(first),
                        }
                    },
                };
                exchange.conclude(self, result);
            },
            (stage, _) => {
                exchange.stage = stage;
            },
        }
    }

    /// Waits for the response to a frame that is out, if one is awaited.
    ///
    /// The timeout is turned into an absolute deadline so a frame that dribbles in over several reads
    /// cannot extend the wait.
    fn wait_for(&mut self, exchange: &mut Exchange)
        requires
            old(self).wf(),
            old(exchange).frame.wf(),
            old(exchange)@.unsent.len() == 0,
        ensures
            final(self).wf(),
            final(exchange).wf(),
            (final(self)@, final(exchange)@) == (if old(exchange)@.awaits is None {
                conclude(old(self)@, old(exchange)@, Ok(None))
            } else if old(exchange)@.timeout is Some {
                (old(self)@, old(exchange)@.at(StageView::Deadline))
            } else {
                (old(self)@, begin_wait(old(self)@, old(exchange)@))
            }),
    {
        if exchange.awaits.is_none() {
            exchange.conclude(self, Ok(None));
        } else if exchange.timeout.is_some() {
            exchange.stage = Stage::Deadline;
        } else {
            self.begin_wait(exchange);
        }
    }

    /// Begins to read, unless the frame boundary is lost.
    fn begin_wait(&self, exchange: &mut Exchange)
        requires
            old(exchange).frame.wf(),
            old(exchange)@.is_waiting(),
        ensures
            final(exchange).wf(),
            final(exchange)@ == begin_wait(self@, old(exchange)@),
    {
        match self.io.ensure_usable() {
            Ok(()) => exchange.turn(),
            Err(err) => {
                exchange.stage = Stage::Clearing(Err(err));
            },
        }
    }

    /// Takes in what one read has delivered, discarding responses to abandoned requests.
    ///
    /// A timed-out read leaves the partially received frame in the decoder, so reading on picks up
    /// exactly where it left off.
    fn wait_for_inner(&mut self, exchange: &mut Exchange, received: Result<&[u8], IoError>)
        requires
            old(self).wf(),
            old(self).can_take(Event::Received(received)),
            old(exchange).wf(),
            old(exchange)@.stage is Receiving,
        ensures
            final(self).wf(),
            final(exchange).wf(),
            (final(self)@, final(exchange)@) == next(
                old(self)@,
                old(exchange)@,
                Event::Received(received),
            ),
    {
        let bytes = match received {
            Ok(bytes) => bytes,
            Err(err) => {
                let transient = match err.kind {
                    ErrorKind::WouldBlock | ErrorKind::TimedOut | ErrorKind::Interrupted => true,
                    _ => false,
                };
                if exchange.timeout.is_some() && transient {
                    exchange.turn();
                } else {
                    self.io.usable = false;
                    exchange.stage = Stage::Clearing(Err(Error::Io(err)));
                }
                return ;
            },
        };
        let response = match self.io.recv_next_frame(self.transport, bytes) {
            Ok(Some(response)) => response,
            Ok(None) => {
                if exchange.timeout.is_some() {
                    exchange.turn();
                }
                return ;
            },
            Err(err) => {
                self.io.usable = false;
                exchange.stage = Stage::Clearing(Err(err));
                return ;
            },
        };
        if let Some(expected) = exchange.awaits {
            match self.io.route_response(expected, response) {
                Ok(RouteOutcome::Discarded) => exchange.turn(),
                Ok(RouteOutcome::Complete(status)) => {
                    exchange.stage = Stage::Clearing(Ok(status));
                },
                Err(err) => {
                    exchange.stage = Stage::Clearing(Err(err));
                },
            }
        }
    }
}

} // verus!
