//! The frames that client and server exchange, byte by byte.
//!
//! All multi-byte fields use the byte order of the machine, since both ends of the socket are
//! always on the same machine.
use crate::bytes::{
    law_u32_bytes_read_back, law_u32_bytes_write_back, law_u64_bytes_read_back,
    law_u64_bytes_write_back, u32_bytes, u32_from_ne_bytes, u32_of_bytes, u32_to_ne_bytes,
    u64_bytes, u64_from_ne_bytes, u64_of_bytes, u64_to_ne_bytes,
};
use crate::error::{result_view, Error, ErrorView};
use vstd::prelude::*;

verus! {

/// A request to write a minidump.
pub const CRASH: u32 = 0;

/// The server's answer to a [`CRASH`] request.
pub const CRASH_ACK: u32 = 1;

/// A sign of life.
pub const PING: u32 = 2;

/// The server's answer to a [`PING`].
pub const PONG: u32 = 3;

/// The wire kind of the user kind zero.
pub const USER: u32 = 4;

/// A user message whose delivery the client wants the handler to confirm.
pub const ACKED_USER_MESSAGE: u32 = 0xffff_fffe;

/// The server's answer to an [`ACKED_USER_MESSAGE`].
pub const ACKED_USER_RESPONSE: u32 = 0xffff_ffff;

/// Wire kinds are `USER + kind`, so user kinds must stay below the reserved range or a normal
/// message would be indistinguishable from an acknowledged one on the wire.
pub const MAX_USER_KIND_EXCLUSIVE: u32 = ACKED_USER_MESSAGE - USER;

/// The kind and the size that open every frame.
pub const HEADER_SIZE: usize = 8;

/// `request_id: u64` followed by `user_kind: u32`, ahead of the caller's bytes.
pub const ACKED_USER_MESSAGE_PREFIX_SIZE: usize = 12;

/// `request_id: u64` followed by the status byte.
pub const ACKED_USER_RESPONSE_PAYLOAD_SIZE: usize = 9;

/// The handler's verdict on an acknowledged message.
#[derive(Copy, Clone, Debug, PartialEq, Eq, Structural)]
pub enum MessageAck {
    /// The handler has taken ownership of the message.
    Accepted,
    /// The handler does not want the message.
    Rejected,
    /// The handler does not answer acknowledged messages.
    Unsupported,
}

impl MessageAck {
    /// The byte that stands for the verdict on the wire.
    pub open spec fn code(self) -> u8 {
        match self {
            MessageAck::Accepted => 0,
            MessageAck::Rejected => 1,
            MessageAck::Unsupported => 2,
        }
    }

    /// The verdict that a byte stands for on the wire.
    pub open spec fn of_code(code: u8) -> Option<MessageAck> {
        if code == 0 {
            Some(MessageAck::Accepted)
        } else if code == 1 {
            Some(MessageAck::Rejected)
        } else if code == 2 {
            Some(MessageAck::Unsupported)
        } else {
            None
        }
    }
}

/// What opens every frame: its kind and the size of the payload that follows.
#[derive(Copy, Clone, Debug, PartialEq, Eq, Structural)]
pub struct Header {
    /// The kind of frame.
    pub kind: u32,
    /// The number of payload bytes behind the header.
    pub size: u32,
}

impl Header {
    /// The header on the wire.
    pub open spec fn wire(self) -> Seq<u8> {
        u32_bytes(self.kind) + u32_bytes(self.size)
    }

    /// The header that eight bytes hold.
    pub open spec fn of_wire(bytes: Seq<u8>) -> Header {
        Header { kind: u32_of_bytes(bytes.take(4)), size: u32_of_bytes(bytes.skip(4)) }
    }

    /// The header as it goes over the wire.
    pub fn as_bytes(&self) -> (bytes: [u8; HEADER_SIZE])
        ensures
            bytes@ == self.wire(),
            bytes@.subrange(0, 4) == u32_bytes(self.kind),
            bytes@.subrange(4, 8) == u32_bytes(self.size),
    {
        let kind = u32_to_ne_bytes(self.kind);
        let size = u32_to_ne_bytes(self.size);
        proof {
            law_u32_bytes_read_back(self.kind);
            law_u32_bytes_read_back(self.size);
        }
        let bytes = [kind[0], kind[1], kind[2], kind[3], size[0], size[1], size[2], size[3]];
        assert(bytes@ =~= self.wire());
        assert(bytes@.subrange(0, 4) =~= u32_bytes(self.kind));
        assert(bytes@.subrange(4, 8) =~= u32_bytes(self.size));
        bytes
    }

    /// Reads a header off the wire. Only a slice of exactly the size of a header holds one.
    pub fn from_bytes(buf: &[u8]) -> (header: Option<Header>)
        ensures
            header == (if buf@.len() == HEADER_SIZE {
                Some(Header::of_wire(buf@))
            } else {
                None
            }),
            forall|sent: Header| buf@ == #[trigger] sent.wire() ==> header == Some(sent),
            header is Some <==> buf@.len() == 8,
            header matches Some(header) ==> {
                &&& u32_bytes(header.kind) == buf@.subrange(0, 4)
                &&& u32_bytes(header.size) == buf@.subrange(4, 8)
            },
    {
        proof {
            if buf@.len() == HEADER_SIZE {
                law_u32_bytes_write_back(buf@.subrange(0, 4));
                law_u32_bytes_write_back(buf@.subrange(4, 8));
                assert(buf@.take(4) =~= buf@.subrange(0, 4));
                assert(buf@.skip(4) =~= buf@.subrange(4, 8));
            }
            assert forall|sent: Header| buf@ == #[trigger] sent.wire() implies buf@.len()
                == HEADER_SIZE && Header::of_wire(buf@) == sent by {
                law_header_read_back(sent);
            }
        }
        if buf.len() != HEADER_SIZE {
            return None;
        }
        let kind = [buf[0], buf[1], buf[2], buf[3]];
        let size = [buf[4], buf[5], buf[6], buf[7]];
        assert(kind@ =~= buf@.take(4));
        assert(size@ =~= buf@.skip(4));
        Some(Header { kind: u32_from_ne_bytes(kind), size: u32_from_ne_bytes(size) })
    }
}

/// A header read off the wire is the header that was written to it.
pub proof fn law_header_read_back(header: Header)
    ensures
        header.wire().len() == HEADER_SIZE,
        Header::of_wire(header.wire()) == header,
{
    law_u32_bytes_read_back(header.kind);
    law_u32_bytes_read_back(header.size);
    assert(header.wire().take(4) =~= u32_bytes(header.kind));
    assert(header.wire().skip(4) =~= u32_bytes(header.size));
}

/// Any eight bytes are the header that they are read as.
pub proof fn law_header_write_back(bytes: Seq<u8>)
    requires
        bytes.len() == HEADER_SIZE,
    ensures
        Header::of_wire(bytes).wire() == bytes,
{
    law_u32_bytes_write_back(bytes.take(4));
    law_u32_bytes_write_back(bytes.skip(4));
    assert(bytes.take(4) + bytes.skip(4) =~= bytes);
}

/// Translates a user-facing message kind into its wire kind, rejecting the kinds that would collide
/// with the acknowledged-message protocol: a forged protocol frame is far worse than an error.
pub fn checked_user_kind(kind: u32) -> (wire_kind: Result<u32, Error>)
    ensures
        match wire_kind {
            Ok(wire_kind) => kind < MAX_USER_KIND_EXCLUSIVE && wire_kind == USER + kind,
            Err(err) => kind >= MAX_USER_KIND_EXCLUSIVE && err@ == ErrorView::Protocol(
                "user message kind is reserved"@,
            ),
        },
{
    if kind >= MAX_USER_KIND_EXCLUSIVE {
        Err(Error::ProtocolError("user message kind is reserved"))
    } else {
        Ok(USER + kind)
    }
}

/// The payload of an acknowledged message on the wire.
pub open spec fn acked_message_wire(request_id: u64, user_kind: u32, payload: Seq<u8>) -> Seq<u8> {
    u64_bytes(request_id) + u32_bytes(user_kind) + payload
}

/// Puts the id and the kind of an acknowledged message ahead of the caller's bytes.
pub fn encode_acked_user_message(request_id: u64, user_kind: u32, payload: &[u8]) -> (encoded: Vec<
    u8,
>)
    ensures
        encoded@ == acked_message_wire(request_id, user_kind, payload@),
        encoded@.len() == 12 + payload@.len(),
        encoded@.subrange(0, 8) == u64_bytes(request_id),
        encoded@.subrange(8, 12) == u32_bytes(user_kind),
        encoded@.skip(12) == payload@,
{
    let mut encoded: Vec<u8> = Vec::new();
    encoded.extend_from_slice(&u64_to_ne_bytes(request_id));
    encoded.extend_from_slice(&u32_to_ne_bytes(user_kind));
    encoded.extend_from_slice(payload);
    assert(encoded@ =~= acked_message_wire(request_id, user_kind, payload@));
    proof {
        law_acked_message_layout(request_id, user_kind, payload@);
    }
    encoded
}

/// Takes the id and the kind off an acknowledged message. The message is refused only where it is
/// too short to hold them.
pub fn decode_acked_user_message(frame: Vec<u8>) -> (decoded: Result<(u64, u32, Vec<u8>), Error>)
    ensures
        match decoded {
            Ok((request_id, user_kind, payload)) => frame@ == acked_message_wire(
                request_id,
                user_kind,
                payload@,
            ),
            Err(err) => frame@.len() < ACKED_USER_MESSAGE_PREFIX_SIZE && err@
                == ErrorView::Protocol("acknowledged user message is too short"@),
        },
        decoded is Ok <==> frame@.len() >= ACKED_USER_MESSAGE_PREFIX_SIZE,
        decoded is Ok <==> frame@.len() >= 12,
        decoded matches Ok((request_id, user_kind, payload)) ==> {
            &&& u64_bytes(request_id) == frame@.subrange(0, 8)
            &&& u32_bytes(user_kind) == frame@.subrange(8, 12)
            &&& payload@ == frame@.skip(12)
        },
        forall|request_id: u64, user_kind: u32, payload: Seq<u8>|
            frame@ == #[trigger] acked_message_wire(request_id, user_kind, payload) ==> (
            decoded matches Ok(message) && message.0 == request_id && message.1 == user_kind
                && message.2@ == payload),
{
    proof {
        assert forall|request_id: u64, user_kind: u32, payload: Seq<u8>|
            frame@ == #[trigger] acked_message_wire(
                request_id,
                user_kind,
                payload,
            ) implies frame@.len() >= ACKED_USER_MESSAGE_PREFIX_SIZE by {
            law_u64_bytes_read_back(request_id);
            law_u32_bytes_read_back(user_kind);
        }
    }
    if frame.len() < ACKED_USER_MESSAGE_PREFIX_SIZE {
        return Err(Error::ProtocolError("acknowledged user message is too short"));
    }
    let mut frame = frame;
    let ghost whole = frame@;
    let payload = frame.split_off(ACKED_USER_MESSAGE_PREFIX_SIZE);
    let request_id = u64_from_ne_bytes(
        [frame[0], frame[1], frame[2], frame[3], frame[4], frame[5], frame[6], frame[7]],
    );
    let user_kind = u32_from_ne_bytes([frame[8], frame[9], frame[10], frame[11]]);
    proof {
        let id_bytes = whole.take(8);
        let kind_bytes = whole.subrange(8, 12);
        assert(id_bytes =~= [frame[0], frame[1], frame[2], frame[3], frame[4], frame[5], frame[6], frame[7]]@);
        assert(kind_bytes =~= [frame[8], frame[9], frame[10], frame[11]]@);
        law_u64_bytes_write_back(id_bytes);
        law_u32_bytes_write_back(kind_bytes);
        assert(whole =~= acked_message_wire(request_id, user_kind, payload@));
        law_acked_message_layout(request_id, user_kind, payload@);
        assert forall|id: u64, kind: u32, rest: Seq<u8>|
            whole == #[trigger] acked_message_wire(id, kind, rest) implies id == request_id && kind
            == user_kind && rest == payload@ by {
            law_acked_message_unambiguous(id, kind, rest, request_id, user_kind, payload@);
        }
    }
    Ok((request_id, user_kind, payload))
}

/// An acknowledged message on the wire stands for one message only.
pub proof fn law_acked_message_unambiguous(
    request_id: u64,
    user_kind: u32,
    payload: Seq<u8>,
    other_request_id: u64,
    other_user_kind: u32,
    other_payload: Seq<u8>,
)
    requires
        acked_message_wire(request_id, user_kind, payload) == acked_message_wire(
            other_request_id,
            other_user_kind,
            other_payload,
        ),
    ensures
        request_id == other_request_id,
        user_kind == other_user_kind,
        payload == other_payload,
{
    let one = acked_message_wire(request_id, user_kind, payload);
    let other = acked_message_wire(other_request_id, other_user_kind, other_payload);
    law_u64_bytes_read_back(request_id);
    law_u64_bytes_read_back(other_request_id);
    law_u32_bytes_read_back(user_kind);
    law_u32_bytes_read_back(other_user_kind);
    assert(one.take(8) =~= u64_bytes(request_id));
    assert(other.take(8) =~= u64_bytes(other_request_id));
    assert(one.subrange(8, 12) =~= u32_bytes(user_kind));
    assert(other.subrange(8, 12) =~= u32_bytes(other_user_kind));
    assert(one.skip(12) =~= payload);
    assert(other.skip(12) =~= other_payload);
}

/// The payload of the answer to an acknowledged message on the wire.
pub open spec fn acked_response_wire(request_id: u64, status: MessageAck) -> Seq<u8> {
    u64_bytes(request_id).push(status.code())
}

/// The answer to an acknowledged message: its id and the handler's verdict.
pub fn encode_acked_user_response(request_id: u64, status: MessageAck) -> (payload:
    [u8; ACKED_USER_RESPONSE_PAYLOAD_SIZE])
    ensures
        payload@ == acked_response_wire(request_id, status),
        payload@.subrange(0, 8) == u64_bytes(request_id),
        payload@[8] == (match status {
            MessageAck::Accepted => 0u8,
            MessageAck::Rejected => 1u8,
            MessageAck::Unsupported => 2u8,
        }),
{
    let id = u64_to_ne_bytes(request_id);
    let code: u8 = match status {
        MessageAck::Accepted => 0,
        MessageAck::Rejected => 1,
        MessageAck::Unsupported => 2,
    };
    proof {
        law_u64_bytes_read_back(request_id);
    }
    let payload = [id[0], id[1], id[2], id[3], id[4], id[5], id[6], id[7], code];
    assert(payload@ =~= acked_response_wire(request_id, status));
    assert(payload@.subrange(0, 8) =~= u64_bytes(request_id));
    payload
}

/// What reading the answer to an acknowledged message gives.
pub open spec fn acked_response_of_wire(payload: Seq<u8>) -> Result<(u64, MessageAck), ErrorView> {
    if payload.len() != ACKED_USER_RESPONSE_PAYLOAD_SIZE {
        Err(ErrorView::Protocol("acknowledged user response has an unexpected size"@))
    } else {
        match MessageAck::of_code(payload[8]) {
            Some(status) => Ok((u64_of_bytes(payload.take(8)), status)),
            None => Err(ErrorView::Protocol("acknowledged user response has an unknown status"@)),
        }
    }
}

/// Reads the answer to an acknowledged message.
pub fn decode_acked_user_response(payload: &[u8]) -> (decoded: Result<(u64, MessageAck), Error>)
    ensures
        result_view(decoded) == acked_response_of_wire(payload@),
        forall|request_id: u64, status: MessageAck|
            payload@ == #[trigger] acked_response_wire(request_id, status) ==> decoded == Ok::<
                _,
                Error,
            >((request_id, status)),
        decoded is Ok <==> payload@.len() == 9 && payload@[8] <= 2,
        decoded matches Ok((request_id, status)) ==> {
            &&& u64_bytes(request_id) == payload@.subrange(0, 8)
            &&& status == MessageAck::Accepted <==> payload@[8] == 0
            &&& status == MessageAck::Rejected <==> payload@[8] == 1
            &&& status == MessageAck::Unsupported <==> payload@[8] == 2
        },
{
    proof {
        law_acked_response_is_read_by_its_bytes(payload@);
        assert forall|request_id: u64, status: MessageAck|
            payload@ == #[trigger] acked_response_wire(
                request_id,
                status,
            ) implies acked_response_of_wire(payload@) == Ok::<_, ErrorView>((request_id, status)) by {
            law_acked_response_read_back(request_id, status);
        }
    }
    if payload.len() != ACKED_USER_RESPONSE_PAYLOAD_SIZE {
        return Err(Error::ProtocolError("acknowledged user response has an unexpected size"));
    }
    let request_id = [
        payload[0],
        payload[1],
        payload[2],
        payload[3],
        payload[4],
        payload[5],
        payload[6],
        payload[7],
    ];
    assert(request_id@ =~= payload@.take(8));
    let status = match payload[8] {
        0 => MessageAck::Accepted,
        1 => MessageAck::Rejected,
        2 => MessageAck::Unsupported,
        _ => {
            return Err(Error::ProtocolError("acknowledged user response has an unknown status"));
        },
    };
    Ok((u64_from_ne_bytes(request_id), status))
}

/// Reading an answer gives the id and the verdict that were written.
pub proof fn law_acked_response_read_back(request_id: u64, status: MessageAck)
    ensures
        acked_response_of_wire(acked_response_wire(request_id, status)) == Ok::<_, ErrorView>(
            (request_id, status),
        ),
{
    law_u64_bytes_read_back(request_id);
    assert(acked_response_wire(request_id, status).take(8) =~= u64_bytes(request_id));
}

/// Whatever is read as an answer is what that answer looks like on the wire.
pub proof fn law_acked_response_write_back(payload: Seq<u8>)
    requires
        acked_response_of_wire(payload) is Ok,
    ensures
        acked_response_wire(
            acked_response_of_wire(payload)->Ok_0.0,
            acked_response_of_wire(payload)->Ok_0.1,
        ) == payload,
{
    law_u64_bytes_write_back(payload.take(8));
    assert(payload.take(8).push(payload[8]) =~= payload);
}

/// An address in the memory of the client, as wide as the client's platform has it.
#[derive(Copy, Clone, Debug, PartialEq, Eq, Structural)]
pub enum ProtoPointer {
    /// The address on a 32-bit platform.
    Narrow(u32),
    /// The address on a 64-bit platform.
    Wide(u64),
}

/// What a Windows client sends in place of a crash context, which is of no use outside of its
/// process.
#[derive(Copy, Clone, Debug, PartialEq, Eq, Structural)]
pub struct DumpRequest {
    /// The address of an `EXCEPTION_POINTERS` in the client's memory
    pub exception_pointers: ProtoPointer,
    /// The process id of the client process
    pub process_id: u32,
    /// The id of the thread in the client process in which the crash originated
    pub thread_id: u32,
    /// The top level exception code
    pub exception_code: i32,
}

impl DumpRequest {
    /// The request on the wire: its fields, one behind the other.
    pub open spec fn wire(self) -> Seq<u8> {
        (match self.exception_pointers {
            ProtoPointer::Narrow(address) => u32_bytes(address),
            ProtoPointer::Wide(address) => u64_bytes(address),
        }) + u32_bytes(self.process_id) + u32_bytes(self.thread_id) + u32_bytes(
            self.exception_code as u32,
        )
    }

    /// The request as it goes over the wire.
    pub fn encode(&self) -> (encoded: Vec<u8>)
        ensures
            encoded@ == self.wire(),
            ({
                let w: int = if self.exception_pointers is Wide {
                    8
                } else {
                    4
                };
                &&& encoded@.len() == w + 12
                &&& encoded@.subrange(0, w) == (match self.exception_pointers {
                    ProtoPointer::Narrow(address) => u32_bytes(address),
                    ProtoPointer::Wide(address) => u64_bytes(address),
                })
                &&& encoded@.subrange(w, w + 4) == u32_bytes(self.process_id)
                &&& encoded@.subrange(w + 4, w + 8) == u32_bytes(self.thread_id)
                &&& encoded@.subrange(w + 8, w + 12) == u32_bytes(self.exception_code as u32)
            }),
    {
        proof {
            law_dump_request_layout(*self);
        }
        let mut encoded: Vec<u8> = Vec::new();
        match self.exception_pointers {
            ProtoPointer::Narrow(address) => encoded.extend_from_slice(&u32_to_ne_bytes(address)),
            ProtoPointer::Wide(address) => encoded.extend_from_slice(&u64_to_ne_bytes(address)),
        }
        encoded.extend_from_slice(&u32_to_ne_bytes(self.process_id));
        encoded.extend_from_slice(&u32_to_ne_bytes(self.thread_id));
        encoded.extend_from_slice(&u32_to_ne_bytes(self.exception_code as u32));
        assert(encoded@ =~= self.wire());
        encoded
    }
}

/// A request of a given pointer width takes up the same room whatever it says, and no two of them
/// look the same on the wire.
pub proof fn law_dump_request_unambiguous(request: DumpRequest, other: DumpRequest)
    requires
        request.exception_pointers is Wide <==> other.exception_pointers is Wide,
    ensures
        request.wire().len() == if request.exception_pointers is Wide {
            20int
        } else {
            16int
        },
        request.wire() == other.wire() ==> request == other,
{
    let one = request.wire();
    let two = other.wire();
    lemma_dump_request_length(request);
    lemma_dump_request_length(other);
    let at: int = one.len() - 12;
    if one == two {
        law_u32_bytes_read_back(request.process_id);
        law_u32_bytes_read_back(other.process_id);
        law_u32_bytes_read_back(request.thread_id);
        law_u32_bytes_read_back(other.thread_id);
        law_u32_bytes_read_back(request.exception_code as u32);
        law_u32_bytes_read_back(other.exception_code as u32);
        assert(one.subrange(at, at + 4) =~= u32_bytes(request.process_id));
        assert(two.subrange(at, at + 4) =~= u32_bytes(other.process_id));
        assert(one.subrange(at + 4, at + 8) =~= u32_bytes(request.thread_id));
        assert(two.subrange(at + 4, at + 8) =~= u32_bytes(other.thread_id));
        assert(one.skip(at + 8) =~= u32_bytes(request.exception_code as u32));
        assert(two.skip(at + 8) =~= u32_bytes(other.exception_code as u32));
        let (a, b) = (request.exception_code, other.exception_code);
        assert(a as u32 == b as u32 ==> a == b) by (bit_vector);
        match (request.exception_pointers, other.exception_pointers) {
            (ProtoPointer::Narrow(p), ProtoPointer::Narrow(q)) => {
                law_u32_bytes_read_back(p);
                law_u32_bytes_read_back(q);
                assert(one.take(at) =~= u32_bytes(p));
                assert(two.take(at) =~= u32_bytes(q));
            },
            (ProtoPointer::Wide(p), ProtoPointer::Wide(q)) => {
                law_u64_bytes_read_back(p);
                law_u64_bytes_read_back(q);
                assert(one.take(at) =~= u64_bytes(p));
                assert(two.take(at) =~= u64_bytes(q));
            },
            _ => {},
        }
    }
}

proof fn lemma_dump_request_length(request: DumpRequest)
    ensures
        request.wire().len() == if request.exception_pointers is Wide {
            20int
        } else {
            16int
        },
{
    law_u32_bytes_read_back(request.process_id);
    law_u32_bytes_read_back(request.thread_id);
    law_u32_bytes_read_back(request.exception_code as u32);
    match request.exception_pointers {
        ProtoPointer::Narrow(address) => law_u32_bytes_read_back(address),
        ProtoPointer::Wide(address) => law_u64_bytes_read_back(address),
    }
}

/// Where the fields of a dump request stand on the wire: the pointer comes first, then the id of the
/// process, then the id of the thread, then the exception code, with nothing in between.
pub proof fn law_dump_request_layout(request: DumpRequest)
    ensures
        ({
            let w: int = if request.exception_pointers is Wide {
                8
            } else {
                4
            };
            let wire = request.wire();
            &&& wire.len() == w + 12
            &&& request.exception_pointers matches ProtoPointer::Narrow(address) ==> wire.subrange(
                0,
                w,
            ) == u32_bytes(address)
            &&& request.exception_pointers matches ProtoPointer::Wide(address) ==> wire.subrange(
                0,
                w,
            ) == u64_bytes(address)
            &&& wire.subrange(w, w + 4) == u32_bytes(request.process_id)
            &&& wire.subrange(w + 4, w + 8) == u32_bytes(request.thread_id)
            &&& wire.subrange(w + 8, w + 12) == u32_bytes(request.exception_code as u32)
        }),
{
    lemma_dump_request_length(request);
    law_u32_bytes_read_back(request.process_id);
    law_u32_bytes_read_back(request.thread_id);
    law_u32_bytes_read_back(request.exception_code as u32);
    let wire = request.wire();
    let w: int = wire.len() - 12;
    match request.exception_pointers {
        ProtoPointer::Narrow(address) => {
            law_u32_bytes_read_back(address);
            assert(wire.subrange(0, w) =~= u32_bytes(address));
        },
        ProtoPointer::Wide(address) => {
            law_u64_bytes_read_back(address);
            assert(wire.subrange(0, w) =~= u64_bytes(address));
        },
    }
    assert(wire.subrange(w, w + 4) =~= u32_bytes(request.process_id));
    assert(wire.subrange(w + 4, w + 8) =~= u32_bytes(request.thread_id));
    assert(wire.subrange(w + 8, w + 12) =~= u32_bytes(request.exception_code as u32));
}

/// A reader that takes each field of a dump request from its place gets back what was written,
/// whatever the request says.
pub proof fn law_dump_request_reads_back(request: DumpRequest)
    ensures
        ({
            let wire = request.wire();
            let w: int = wire.len() - 12;
            &&& request.exception_pointers matches ProtoPointer::Narrow(address) ==> u32_of_bytes(
                wire.take(4),
            ) == address
            &&& request.exception_pointers matches ProtoPointer::Wide(address) ==> u64_of_bytes(
                wire.take(8),
            ) == address
            &&& u32_of_bytes(wire.subrange(w, w + 4)) == request.process_id
            &&& u32_of_bytes(wire.subrange(w + 4, w + 8)) == request.thread_id
            &&& u32_of_bytes(wire.subrange(w + 8, w + 12)) as i32 == request.exception_code
        }),
{
    law_dump_request_layout(request);
    law_u32_bytes_read_back(request.process_id);
    law_u32_bytes_read_back(request.thread_id);
    law_u32_bytes_read_back(request.exception_code as u32);
    let code = request.exception_code;
    assert((code as u32) as i32 == code) by (bit_vector);
    let wire = request.wire();
    match request.exception_pointers {
        ProtoPointer::Narrow(address) => {
            law_u32_bytes_read_back(address);
            assert(wire.take(4) =~= wire.subrange(0, 4));
        },
        ProtoPointer::Wide(address) => {
            law_u64_bytes_read_back(address);
            assert(wire.take(8) =~= wire.subrange(0, 8));
        },
    }
}

/// Where the fields of a header stand on the wire.
pub proof fn law_header_layout(header: Header)
    ensures
        header.wire().len() == 8,
        header.wire().subrange(0, 4) == u32_bytes(header.kind),
        header.wire().subrange(4, 8) == u32_bytes(header.size),
{
    law_u32_bytes_read_back(header.kind);
    law_u32_bytes_read_back(header.size);
    assert(header.wire().subrange(0, 4) =~= u32_bytes(header.kind));
    assert(header.wire().subrange(4, 8) =~= u32_bytes(header.size));
}

/// Where the fields of an acknowledged message stand on the wire: the id, then the kind, then the
/// caller's bytes, all of them.
pub proof fn law_acked_message_layout(request_id: u64, user_kind: u32, payload: Seq<u8>)
    ensures
        ({
            let wire = acked_message_wire(request_id, user_kind, payload);
            &&& wire.len() == 12 + payload.len()
            &&& wire.subrange(0, 8) == u64_bytes(request_id)
            &&& wire.subrange(8, 12) == u32_bytes(user_kind)
            &&& wire.skip(12) == payload
        }),
{
    law_u64_bytes_read_back(request_id);
    law_u32_bytes_read_back(user_kind);
    let wire = acked_message_wire(request_id, user_kind, payload);
    assert(wire.subrange(0, 8) =~= u64_bytes(request_id));
    assert(wire.subrange(8, 12) =~= u32_bytes(user_kind));
    assert(wire.skip(12) =~= payload);
}

/// Where the fields of an answer stand on the wire: the id, then one byte for the status.
pub proof fn law_acked_response_layout(request_id: u64, status: MessageAck)
    ensures
        ({
            let wire = acked_response_wire(request_id, status);
            &&& wire.len() == 9
            &&& wire.subrange(0, 8) == u64_bytes(request_id)
            &&& status == MessageAck::Accepted <==> wire[8] == 0
            &&& status == MessageAck::Rejected <==> wire[8] == 1
            &&& status == MessageAck::Unsupported <==> wire[8] == 2
        }),
{
    law_u64_bytes_read_back(request_id);
    assert(acked_response_wire(request_id, status).subrange(0, 8) =~= u64_bytes(request_id));
}

/// What the bytes of an answer decide: one of the wrong length is refused for that, one whose last byte
/// is no status is refused for that, and any other is read for its id and its status.
pub proof fn law_acked_response_is_read_by_its_bytes(payload: Seq<u8>)
    ensures
        payload.len() != 9 ==> acked_response_of_wire(payload) == Err::<(u64, MessageAck), _>(
            ErrorView::Protocol("acknowledged user response has an unexpected size"@),
        ),
        payload.len() == 9 && payload[8] > 2 ==> acked_response_of_wire(payload) == Err::<
            (u64, MessageAck),
            _,
        >(ErrorView::Protocol("acknowledged user response has an unknown status"@)),
        payload.len() == 9 && payload[8] <= 2 ==> (acked_response_of_wire(payload) matches Ok(
            (request_id, status),
        ) && {
            &&& u64_bytes(request_id) == payload.subrange(0, 8)
            &&& payload[8] == 0 ==> status == MessageAck::Accepted
            &&& payload[8] == 1 ==> status == MessageAck::Rejected
            &&& payload[8] == 2 ==> status == MessageAck::Unsupported
        }),
{
    if payload.len() == 9 {
        assert(payload.take(8) =~= payload.subrange(0, 8));
        law_u64_bytes_write_back(payload.subrange(0, 8));
    }
}

/// The kinds of frame, which both ends have to agree on.
pub proof fn law_wire_kinds()
    ensures
        CRASH == 0,
        CRASH_ACK == 1,
        PING == 2,
        PONG == 3,
        USER == 4,
        ACKED_USER_MESSAGE == 0xffff_fffe,
        ACKED_USER_RESPONSE == 0xffff_ffff,
        MAX_USER_KIND_EXCLUSIVE == 0xffff_fffa,
        HEADER_SIZE == 8,
        ACKED_USER_MESSAGE_PREFIX_SIZE == 12,
        ACKED_USER_RESPONSE_PAYLOAD_SIZE == 9,
{
}

} // verus!
