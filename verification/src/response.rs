//! The frames that the server sends to the client, and how they are read.
use crate::bytes::{law_u64_bytes_read_back, u32_bytes, u32_of_bytes, u64_bytes};
use crate::error::{raise, raised, result_view, Error, ErrorKind, ErrorView};
use crate::wire::{
    acked_response_of_wire, acked_response_wire, decode_acked_user_response,
    law_acked_response_is_read_by_its_bytes, law_acked_response_read_back,
    law_acked_response_write_back, law_header_read_back,
    law_header_write_back, Header, MessageAck, ACKED_USER_RESPONSE,
    ACKED_USER_RESPONSE_PAYLOAD_SIZE, CRASH_ACK, HEADER_SIZE, PONG,
};
use vstd::prelude::*;
use vstd::slice::slice_subrange;

verus! {

/// A complete frame sent by the server to the client. Every one of these can show up on the socket
/// at any time, so a waiter has to route them rather than assume the next frame is the one it asked
/// for.
#[derive(Copy, Clone, Debug, PartialEq, Eq, Structural)]
pub enum ResponseFrame {
    /// The verdict on an acknowledged message.
    Ack {
        /// The request that the verdict is about.
        request_id: u64,
        /// The verdict.
        status: MessageAck,
    },
    /// The minidump has been written.
    CrashAck,
    /// The answer to a ping.
    Pong,
}

/// The frame the current caller is blocked on.
#[derive(Copy, Clone, Debug, PartialEq, Eq, Structural)]
pub enum ExpectedResponse {
    /// The verdict on the request with this id.
    Ack(u64),
    /// The answer to a crash request.
    CrashAck,
    /// The answer to a ping.
    Pong,
}

/// What became of a frame.
#[derive(Copy, Clone, Debug, PartialEq, Eq, Structural)]
pub enum RouteOutcome {
    /// The frame belonged to an abandoned request and was discarded.
    Discarded,
    /// The awaited frame arrived, with the status it carried (if any).
    Complete(Option<MessageAck>),
}

impl ResponseFrame {
    /// The kind that the header of the frame gives.
    pub open spec fn kind(self) -> u32 {
        match self {
            ResponseFrame::Ack { .. } => ACKED_USER_RESPONSE,
            ResponseFrame::CrashAck => CRASH_ACK,
            ResponseFrame::Pong => PONG,
        }
    }

    /// What follows the header of the frame.
    pub open spec fn payload(self) -> Seq<u8> {
        match self {
            ResponseFrame::Ack { request_id, status } => acked_response_wire(request_id, status),
            ResponseFrame::CrashAck => Seq::empty(),
            ResponseFrame::Pong => Seq::empty(),
        }
    }

    /// The whole frame on the wire.
    pub open spec fn wire(self) -> Seq<u8> {
        Header { kind: self.kind(), size: self.payload().len() as u32 }.wire() + self.payload()
    }
}

/// The payload size that every response of a kind has, if there are responses of that kind.
pub open spec fn payload_size(kind: u32) -> Option<usize> {
    if kind == CRASH_ACK || kind == PONG {
        Some(0)
    } else if kind == ACKED_USER_RESPONSE {
        Some(ACKED_USER_RESPONSE_PAYLOAD_SIZE)
    } else {
        None
    }
}

/// The payload size that the header of a response announces, or what is wrong with the header.
pub open spec fn announced_size(header: Header) -> Result<usize, ErrorView> {
    match payload_size(header.kind) {
        None => Err(ErrorView::Protocol("received an unknown response kind"@)),
        Some(size) => if header.size == size {
            Ok(size)
        } else {
            Err(ErrorView::Protocol("received a response with an unexpected size"@))
        },
    }
}

/// Every server-to-client frame has a fixed payload size, so an unexpected one is a protocol error
/// rather than something to read and discard.
pub fn response_payload_size(header: Header) -> (size: Result<usize, Error>)
    ensures
        result_view(size) == announced_size(header),
{
    let expected: usize = if header.kind == CRASH_ACK || header.kind == PONG {
        0
    } else if header.kind == ACKED_USER_RESPONSE {
        ACKED_USER_RESPONSE_PAYLOAD_SIZE
    } else {
        return Err(Error::ProtocolError("received an unknown response kind"));
    };
    if header.size as usize != expected {
        return Err(Error::ProtocolError("received a response with an unexpected size"));
    }
    Ok(expected)
}

/// The response that a kind and a payload make up.
pub open spec fn frame_of_parts(kind: u32, payload: Seq<u8>) -> Result<ResponseFrame, ErrorView> {
    if kind == CRASH_ACK {
        Ok(ResponseFrame::CrashAck)
    } else if kind == PONG {
        Ok(ResponseFrame::Pong)
    } else if kind == ACKED_USER_RESPONSE {
        match acked_response_of_wire(payload) {
            Ok((request_id, status)) => Ok(ResponseFrame::Ack { request_id, status }),
            Err(err) => Err(err),
        }
    } else {
        Err(ErrorView::Protocol("received an unknown response kind"@))
    }
}

/// Puts a response together from the kind in its header and its payload.
pub fn decode_response_frame(kind: u32, payload: &[u8]) -> (frame: Result<ResponseFrame, Error>)
    ensures
        result_view(frame) == frame_of_parts(kind, payload@),
{
    if kind == CRASH_ACK {
        Ok(ResponseFrame::CrashAck)
    } else if kind == PONG {
        Ok(ResponseFrame::Pong)
    } else if kind == ACKED_USER_RESPONSE {
        match decode_acked_user_response(payload) {
            Ok((request_id, status)) => Ok(ResponseFrame::Ack { request_id, status }),
            Err(err) => Err(err),
        }
    } else {
        Err(Error::ProtocolError("received an unknown response kind"))
    }
}

/// Room for one response in a datagram. The extra byte makes an oversized datagram observable
/// instead of silently truncating it.
pub const DATAGRAM_SIZE: usize = HEADER_SIZE + ACKED_USER_RESPONSE_PAYLOAD_SIZE + 1;

/// The failure of a wait whose peer has closed the connection between two responses.
pub open spec fn closed_while_pending() -> ErrorView {
    raised(
        ErrorKind::UnexpectedEof,
        "the peer closed the connection while a response was pending"@,
    )
}

/// The failure of a wait whose peer has closed the connection in the middle of a response.
pub open spec fn closed_mid_response() -> ErrorView {
    raised(ErrorKind::UnexpectedEof, "the peer closed the connection mid-response"@)
}

/// The response that one datagram holds.
pub open spec fn frame_of_datagram(received: Seq<u8>) -> Result<ResponseFrame, ErrorView> {
    if received.len() == 0 {
        Err(closed_while_pending())
    } else if received.len() < HEADER_SIZE {
        Err(ErrorView::Protocol("received an undersized response frame"@))
    } else {
        let header = Header::of_wire(received.take(HEADER_SIZE as int));
        match announced_size(header) {
            Err(err) => Err(err),
            Ok(size) => if received.len() != HEADER_SIZE + size {
                Err(ErrorView::Protocol("received a malformed response frame"@))
            } else {
                frame_of_parts(header.kind, received.skip(HEADER_SIZE as int))
            },
        }
    }
}

/// Reads the response that one datagram holds. A datagram arrives whole, so the response is either
/// complete or malformed.
pub fn decode_datagram(received: &[u8]) -> (frame: Result<ResponseFrame, Error>)
    ensures
        result_view(frame) == frame_of_datagram(received@),
        forall|sent: ResponseFrame|
            received@ == #[trigger] sent.wire() ==> frame == Ok::<_, Error>(sent),
{
    proof {
        assert forall|sent: ResponseFrame| received@ == #[trigger] sent.wire() implies frame_of_datagram(
            received@,
        ) == Ok::<_, ErrorView>(sent) by {
            law_datagram_read_back(sent);
        }
    }
    if received.len() == 0 {
        return Err(
            raise(
                ErrorKind::UnexpectedEof,
                "the peer closed the connection while a response was pending",
            ),
        );
    }
    if received.len() < HEADER_SIZE {
        return Err(Error::ProtocolError("received an undersized response frame"));
    }
    assert(received@.subrange(0, HEADER_SIZE as int) =~= received@.take(HEADER_SIZE as int));
    assert(received@.subrange(HEADER_SIZE as int, received@.len() as int) =~= received@.skip(
        HEADER_SIZE as int,
    ));
    let header = match Header::from_bytes(slice_subrange(received, 0, HEADER_SIZE)) {
        Some(header) => header,
        None => return Err(Error::ProtocolError("received an invalid response header")),
    };
    let size = match response_payload_size(header) {
        Ok(size) => size,
        Err(err) => return Err(err),
    };
    if received.len() != HEADER_SIZE + size {
        return Err(Error::ProtocolError("received a malformed response frame"));
    }
    decode_response_frame(header.kind, slice_subrange(received, HEADER_SIZE, received.len()))
}

/// A datagram that holds a response is read as that response.
pub proof fn law_datagram_read_back(frame: ResponseFrame)
    ensures
        frame_of_datagram(frame.wire()) == Ok::<_, ErrorView>(frame),
{
    let header = Header { kind: frame.kind(), size: frame.payload().len() as u32 };
    law_header_read_back(header);
    if let ResponseFrame::Ack { request_id, status } = frame {
        law_u64_bytes_read_back(request_id);
        law_acked_response_read_back(request_id, status);
    }
    assert(frame.wire().take(HEADER_SIZE as int) =~= header.wire());
    assert(frame.wire().skip(HEADER_SIZE as int) =~= frame.payload());
}

/// A datagram that is read as a response is that response on the wire, and nothing else.
pub proof fn law_datagram_write_back(received: Seq<u8>)
    requires
        frame_of_datagram(received) is Ok,
    ensures
        frame_of_datagram(received)->Ok_0.wire() == received,
{
    let frame = frame_of_datagram(received)->Ok_0;
    let head = received.take(HEADER_SIZE as int);
    law_header_write_back(head);
    if let ResponseFrame::Ack { request_id, status } = frame {
        law_acked_response_write_back(received.skip(HEADER_SIZE as int));
    }
    assert(frame.payload() =~= received.skip(HEADER_SIZE as int));
    assert(head + received.skip(HEADER_SIZE as int) =~= received);
}

/// What each response looks like on the wire, byte by byte.
pub proof fn law_response_layout(request_id: u64, status: MessageAck)
    ensures
        ResponseFrame::CrashAck.wire() == u32_bytes(1) + u32_bytes(0),
        ResponseFrame::Pong.wire() == u32_bytes(3) + u32_bytes(0),
        (ResponseFrame::Ack { request_id, status }).wire() == u32_bytes(0xffff_ffff) + u32_bytes(9)
            + u64_bytes(request_id) + seq![
            match status {
                MessageAck::Accepted => 0u8,
                MessageAck::Rejected => 1u8,
                MessageAck::Unsupported => 2u8,
            },
        ],
{
    law_u64_bytes_read_back(request_id);
    assert(ResponseFrame::CrashAck.wire() =~= u32_bytes(1) + u32_bytes(0));
    assert(ResponseFrame::Pong.wire() =~= u32_bytes(3) + u32_bytes(0));
    assert((ResponseFrame::Ack { request_id, status }).wire() =~= u32_bytes(0xffff_ffff)
        + u32_bytes(9) + u64_bytes(request_id) + seq![
        match status {
            MessageAck::Accepted => 0u8,
            MessageAck::Rejected => 1u8,
            MessageAck::Unsupported => 2u8,
        },
    ]);
}

/// A header announces a payload only if its kind is one of a response and its size the one that all
/// responses of that kind have. The kind is looked at before the size.
pub proof fn law_headers_announce_fixed_sizes(header: Header)
    ensures
        announced_size(header) is Ok <==> {
            ||| header.kind == 1 && header.size == 0
            ||| header.kind == 3 && header.size == 0
            ||| header.kind == 0xffff_ffff && header.size == 9
        },
        announced_size(header) matches Ok(size) ==> size == header.size,
        header.kind != 1 && header.kind != 3 && header.kind != 0xffff_ffff ==> announced_size(header)
            == Err::<usize, _>(ErrorView::Protocol("received an unknown response kind"@)),
        (header.kind == 1 || header.kind == 3 || header.kind == 0xffff_ffff) && announced_size(
            header,
        ) is Err ==> announced_size(header) == Err::<usize, _>(
            ErrorView::Protocol("received a response with an unexpected size"@),
        ),
{
}

/// What kind a response is of decides what it is, and only a verdict depends on its payload.
pub proof fn law_kinds_decide_what_a_response_is(kind: u32, payload: Seq<u8>)
    ensures
        kind == 1 ==> frame_of_parts(kind, payload) == Ok::<_, ErrorView>(ResponseFrame::CrashAck),
        kind == 3 ==> frame_of_parts(kind, payload) == Ok::<_, ErrorView>(ResponseFrame::Pong),
        kind == 0xffff_ffff ==> {
            &&& frame_of_parts(kind, payload) is Ok <==> payload.len() == 9 && payload[8] <= 2
            &&& frame_of_parts(kind, payload) matches Ok(frame) ==> frame is Ack && frame.payload()
                == payload
            &&& payload.len() != 9 ==> frame_of_parts(kind, payload) == Err::<ResponseFrame, _>(
                ErrorView::Protocol("acknowledged user response has an unexpected size"@),
            )
            &&& payload.len() == 9 && payload[8] > 2 ==> frame_of_parts(kind, payload) == Err::<
                ResponseFrame,
                _,
            >(ErrorView::Protocol("acknowledged user response has an unknown status"@))
        },
        kind != 1 && kind != 3 && kind != 0xffff_ffff ==> frame_of_parts(kind, payload) == Err::<
            ResponseFrame,
            _,
        >(ErrorView::Protocol("received an unknown response kind"@)),
{
    law_acked_response_is_read_by_its_bytes(payload);
    if acked_response_of_wire(payload) is Ok {
        law_acked_response_write_back(payload);
    }
}

/// A datagram is read as a response exactly where it is one on the wire. What it is refused for
/// depends on where it first goes wrong: that it is empty, that it is too short for a header, the kind,
/// the size, the length of the datagram, the status.
pub proof fn law_datagrams_are_refused_for_what_is_wrong(received: Seq<u8>)
    ensures
        frame_of_datagram(received) is Ok <==> exists|frame: ResponseFrame|
            #[trigger] frame.wire() == received,
        received.len() == 0 ==> (frame_of_datagram(received) matches Err(ErrorView::Io(err))
            && err.kind == ErrorKind::UnexpectedEof && err.code is None && err.message
            == "the peer closed the connection while a response was pending"@),
        0 < received.len() < 8 ==> frame_of_datagram(received) == Err::<ResponseFrame, _>(
            ErrorView::Protocol("received an undersized response frame"@),
        ),
        received.len() >= 8 ==> {
            let kind = u32_of_bytes(received.subrange(0, 4));
            let size = u32_of_bytes(received.subrange(4, 8));
            let known = kind == 1 || kind == 3 || kind == 0xffff_ffff;
            let right = size == if kind == 0xffff_ffff {
                9u32
            } else {
                0u32
            };
            &&& !known ==> frame_of_datagram(received) == Err::<ResponseFrame, _>(
                ErrorView::Protocol("received an unknown response kind"@),
            )
            &&& known && !right ==> frame_of_datagram(received) == Err::<ResponseFrame, _>(
                ErrorView::Protocol("received a response with an unexpected size"@),
            )
            &&& known && right && received.len() != 8 + size ==> frame_of_datagram(received)
                == Err::<ResponseFrame, _>(
                ErrorView::Protocol("received a malformed response frame"@),
            )
            &&& known && right && received.len() == 17 && size == 9 && received[16] > 2
                ==> frame_of_datagram(received) == Err::<ResponseFrame, _>(
                ErrorView::Protocol("acknowledged user response has an unknown status"@),
            )
        },
{
    if received.len() >= 8 {
        assert(received.take(8).take(4) =~= received.subrange(0, 4));
        assert(received.take(8).skip(4) =~= received.subrange(4, 8));
    }
    if frame_of_datagram(received) is Ok {
        law_datagram_write_back(received);
    }
    assert forall|frame: ResponseFrame| #[trigger] frame.wire() == received implies frame_of_datagram(
        received,
    ) is Ok by {
        law_datagram_read_back(frame);
    }
}

} // verus!
