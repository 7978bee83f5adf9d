//! Reading responses off a byte stream, which may split a frame anywhere.
use crate::bytes::{law_u64_bytes_read_back, u32_of_bytes};
use crate::error::{result_view, Error, ErrorView};
use crate::response::{
    announced_size, decode_response_frame, frame_of_datagram, frame_of_parts,
    law_datagram_read_back, law_datagram_write_back, law_datagrams_are_refused_for_what_is_wrong,
    response_payload_size, ResponseFrame,
};
use crate::wire::{
    law_acked_response_is_read_by_its_bytes, law_header_read_back, law_header_write_back, Header,
    ACKED_USER_RESPONSE,
    ACKED_USER_RESPONSE_PAYLOAD_SIZE, HEADER_SIZE,
};
use vstd::prelude::*;

verus! {

/// Incremental receive state for the byte-stream transports. Keeping the progress across calls is
/// what lets a timed-out wait resume on a frame boundary rather than resync blindly.
pub enum ResponseRecvState {
    /// The header is still incomplete, or has been refused.
    Header {
        /// Room for the header.
        bytes: [u8; HEADER_SIZE],
        /// How many bytes of it have arrived.
        filled: usize,
    },
    /// The header is complete, the payload is not.
    Payload {
        /// The kind of frame.
        kind: u32,
        /// Room for the payload.
        buffer: [u8; ACKED_USER_RESPONSE_PAYLOAD_SIZE],
        /// The size of the payload.
        len: usize,
        /// How many bytes of it have arrived.
        filled: usize,
    },
}

/// What a read returns that completes a frame, good or bad.
pub open spec fn returned(frame: Result<ResponseFrame, ErrorView>) -> Result<
    Option<ResponseFrame>,
    ErrorView,
> {
    match frame {
        Ok(frame) => Ok(Some(frame)),
        Err(err) => Err(err),
    }
}

/// What is held of a frame, and what is returned, once `chunk` has arrived behind the bytes
/// `received` of the frame.
pub open spec fn stream_step(received: Seq<u8>, chunk: Seq<u8>) -> (
    Seq<u8>,
    Result<Option<ResponseFrame>, ErrorView>,
) {
    let got = received + chunk;
    let header = Header::of_wire(got.take(HEADER_SIZE as int));
    if got.len() < HEADER_SIZE {
        (got, Ok(None))
    } else {
        match announced_size(header) {
            Err(err) => (got, Err(err)),
            Ok(size) => if got.len() < HEADER_SIZE + size {
                (got, Ok(None))
            } else {
                (Seq::empty(), returned(frame_of_parts(header.kind, got.skip(HEADER_SIZE as int))))
            },
        }
    }
}

/// The model of a [`ResponseRecvState`].
#[verifier::ext_equal]
pub enum RecvView {
    /// The header is still incomplete, or has been refused.
    Header {
        /// Room for the header.
        bytes: Seq<u8>,
        /// How many bytes of it have arrived.
        filled: int,
    },
    /// The header is complete, the payload is not.
    Payload {
        /// The kind of frame.
        kind: u32,
        /// Room for the payload.
        buffer: Seq<u8>,
        /// The size of the payload.
        len: int,
        /// How many bytes of it have arrived.
        filled: int,
    },
}

impl View for ResponseRecvState {
    type V = RecvView;

    open spec fn view(&self) -> RecvView {
        match *self {
            ResponseRecvState::Header { bytes, filled } => RecvView::Header {
                bytes: bytes@,
                filled: filled as int,
            },
            ResponseRecvState::Payload { kind, buffer, len, filled } => RecvView::Payload {
                kind,
                buffer: buffer@,
                len: len as int,
                filled: filled as int,
            },
        }
    }
}

/// This many zeros.
pub open spec fn zeros(len: nat) -> Seq<u8> {
    Seq::new(len, |i: int| 0u8)
}

/// How many bytes have to arrive next behind the bytes `received` of a frame: first the rest of the
/// header, then the rest of the payload, which only one kind of response has.
pub open spec fn room(received: Seq<u8>) -> int {
    if received.len() < HEADER_SIZE {
        HEADER_SIZE - received.len()
    } else {
        HEADER_SIZE + ACKED_USER_RESPONSE_PAYLOAD_SIZE - received.len()
    }
}

impl RecvView {
    /// The state in which nothing has arrived yet.
    pub open spec fn fresh() -> RecvView {
        RecvView::Header { bytes: zeros(HEADER_SIZE as nat), filled: 0 }
    }

    /// What has arrived of the current frame.
    pub open spec fn received(self) -> Seq<u8> {
        match self {
            RecvView::Header { bytes, filled } => if filled < HEADER_SIZE {
                bytes.take(filled)
            } else {
                bytes
            },
            RecvView::Payload { kind, buffer, len, filled } => Header {
                kind,
                size: len as u32,
            }.wire() + buffer.take(filled),
        }
    }

    /// The room for the bytes that have to arrive next.
    pub open spec fn spare(self) -> Seq<u8> {
        match self {
            RecvView::Header { bytes, filled } => if filled < HEADER_SIZE {
                bytes.skip(filled)
            } else {
                Seq::empty()
            },
            RecvView::Payload { kind, buffer, len, filled } => buffer.subrange(filled, len),
        }
    }

    /// How many bytes of the header or of the payload have been counted in.
    pub open spec fn filled(self) -> int {
        match self {
            RecvView::Header { filled, .. } => filled,
            RecvView::Payload { filled, .. } => filled,
        }
    }

    /// The next `read` bytes of the room that is left, or all of it where there is less.
    pub open spec fn chunk(self, read: int) -> Seq<u8> {
        if read <= self.spare().len() {
            self.spare().take(read)
        } else {
            self.spare()
        }
    }

    /// A state that reading can go on from: the header is incomplete, or a payload is, which only one
    /// kind of response has. There is room for more in it.
    pub open spec fn wf(self) -> bool {
        match self {
            RecvView::Header { bytes, filled } => {
                &&& bytes.len() == HEADER_SIZE
                &&& 0 <= filled < HEADER_SIZE
            },
            RecvView::Payload { kind, buffer, len, filled } => {
                &&& kind == ACKED_USER_RESPONSE
                &&& buffer.len() == ACKED_USER_RESPONSE_PAYLOAD_SIZE
                &&& len == ACKED_USER_RESPONSE_PAYLOAD_SIZE
                &&& 0 <= filled < len
            },
        }
    }

    /// The state behind a header that has been refused: all of it has arrived, and there is no room
    /// for more.
    pub open spec fn is_stuck(self) -> bool {
        self matches RecvView::Header { bytes, filled } && bytes.len() == HEADER_SIZE && filled
            == HEADER_SIZE
    }

    /// The state with `chunk` put into the room for the bytes that have to arrive next.
    pub open spec fn holding(self, chunk: Seq<u8>) -> RecvView {
        match self {
            RecvView::Header { bytes, filled } => RecvView::Header {
                bytes: bytes.take(filled) + chunk + bytes.skip(filled + chunk.len()),
                filled,
            },
            RecvView::Payload { kind, buffer, len, filled } => RecvView::Payload {
                kind,
                buffer: buffer.take(filled) + chunk + buffer.skip(filled + chunk.len()),
                len,
                filled,
            },
        }
    }

    /// The state, and what is returned, once `read` more bytes are counted in. While the header or the
    /// payload is incomplete, nothing but their number changes. A header that is refused stays; with
    /// the end of a frame, good or bad, the state is a fresh one.
    pub open spec fn counting(self, read: int) -> (
        RecvView,
        Result<Option<ResponseFrame>, ErrorView>,
    ) {
        match self {
            RecvView::Header { bytes, filled } => {
                let counted = RecvView::Header { bytes, filled: filled + read };
                let header = Header::of_wire(bytes);
                if filled + read < HEADER_SIZE {
                    (counted, Ok(None))
                } else {
                    match announced_size(header) {
                        Err(err) => (counted, Err(err)),
                        Ok(len) => if len == 0 {
                            (RecvView::fresh(), returned(frame_of_parts(header.kind, Seq::empty())))
                        } else {
                            (
                                RecvView::Payload {
                                    kind: header.kind,
                                    buffer: zeros(ACKED_USER_RESPONSE_PAYLOAD_SIZE as nat),
                                    len: len as int,
                                    filled: 0,
                                },
                                Ok(None),
                            )
                        },
                    }
                }
            },
            RecvView::Payload { kind, buffer, len, filled } => if filled + read < len {
                (RecvView::Payload { kind, buffer, len, filled: filled + read }, Ok(None))
            } else {
                (RecvView::fresh(), returned(frame_of_parts(kind, buffer.take(len))))
            },
        }
    }

    /// The state, and what is returned, once `chunk` has arrived.
    pub open spec fn taking_in(self, chunk: Seq<u8>) -> (
        RecvView,
        Result<Option<ResponseFrame>, ErrorView>,
    ) {
        self.holding(chunk).counting(chunk.len() as int)
    }
}

impl ResponseRecvState {
    /// What has arrived of the current frame.
    pub open spec fn received(self) -> Seq<u8> {
        self@.received()
    }

    /// The room for the bytes that have to arrive next.
    pub open spec fn spare(self) -> Seq<u8> {
        self@.spare()
    }

    /// A state that reading can go on from, with room for the bytes that have to arrive next.
    pub open spec fn wf(self) -> bool {
        self@.wf()
    }

    /// A state that can come about: one that reading can go on from, or one whose header has been
    /// refused.
    pub open spec fn valid(self) -> bool {
        self@.wf() || self@.is_stuck()
    }

    /// The state in which nothing has arrived yet.
    pub fn new() -> (state: Self)
        ensures
            state.wf(),
            state@ == RecvView::fresh(),
            state.received() == Seq::<u8>::empty(),
            state.spare() == zeros(HEADER_SIZE as nat),
    {
        let state = ResponseRecvState::Header { bytes: [0;HEADER_SIZE], filled: 0 };
        assert(state@ =~= RecvView::fresh());
        assert(state.received() =~= Seq::<u8>::empty());
        assert(state.spare() =~= zeros(HEADER_SIZE as nat));
        state
    }

    /// The room for the bytes that have to arrive next. What is written there counts once
    /// [`Self::advance`] has been told of it.
    pub fn remaining_mut(&mut self) -> (spare: &mut [u8])
        requires
            old(self).valid(),
        ensures
            spare@ == old(self).spare(),
            final(spare)@.len() == spare@.len(),
            final(self)@ == old(self)@.holding(final(spare)@),
            final(self).received() == old(self).received(),
            final(self).spare() == final(spare)@,
            final(self).valid(),
            old(self).wf() ==> final(self).wf(),
    {
        match self {
            ResponseRecvState::Header { bytes, filled } => {
                let bytes: &mut [u8] = bytes;
                bytes.split_at_mut(*filled).1
            },
            ResponseRecvState::Payload { buffer, len, filled, .. } => {
                let buffer: &mut [u8] = buffer;
                buffer.split_at_mut(*len).0.split_at_mut(*filled).1
            },
        }
    }

    /// True while a frame has been partially read, which distinguishes an orderly shutdown from a
    /// peer that died mid-frame.
    pub fn has_partial_frame(&self) -> (partial: bool)
        requires
            self.valid(),
        ensures
            partial == (self.received().len() != 0),
    {
        proof {
            if let ResponseRecvState::Payload { kind, len, .. } = *self {
                law_header_read_back(Header { kind, size: len as u32 });
            }
        }
        match self {
            ResponseRecvState::Header { filled, .. } => *filled != 0,
            ResponseRecvState::Payload { .. } => true,
        }
    }

    /// How many bytes have to arrive next.
    pub fn missing(&self) -> (missing: usize)
        requires
            self.valid(),
        ensures
            missing == self.spare().len(),
            self.wf() ==> missing > 0 && missing == room(self.received()),
    {
        proof {
            if self.wf() {
                law_room_follows_from_what_arrived(self@);
            }
        }
        match self {
            ResponseRecvState::Header { filled, .. } => HEADER_SIZE - *filled,
            ResponseRecvState::Payload { len, filled, .. } => *len - *filled,
        }
    }

    /// Puts bytes into [`Self::remaining_mut`].
    pub fn fill(&mut self, chunk: &[u8])
        requires
            old(self).valid(),
            chunk@.len() <= old(self).spare().len(),
        ensures
            final(self).valid(),
            old(self).wf() ==> final(self).wf(),
            final(self)@ == old(self)@.holding(chunk@),
            final(self).received() == old(self).received(),
            final(self).spare() == chunk@ + old(self).spare().skip(chunk@.len() as int),
    {
        let ghost start = self@;
        let ghost before = self.spare();
        let spare = self.remaining_mut();
        let mut i: usize = 0;
        while i < chunk.len()
            invariant
                i <= chunk@.len() <= before.len(),
                spare@.len() == before.len(),
                forall|j: int| 0 <= j < i ==> spare@[j] == chunk@[j],
                forall|j: int| i <= j < before.len() ==> spare@[j] == before[j],
            decreases chunk@.len() - i,
        {
            spare[i] = chunk[i];
            i = i + 1;
        }
        let ghost filled = chunk@ + before.skip(chunk@.len() as int);
        assert(spare@ =~= filled);
        assert(start.holding(filled) =~= start.holding(chunk@));
    }

    /// Takes in the next `read` bytes, which have been put into [`Self::remaining_mut`], and returns
    /// the frame that they complete, if they do.
    pub fn advance(&mut self, read: usize) -> (frame: Result<Option<ResponseFrame>, Error>)
        requires
            old(self).valid(),
            old(self)@.filled() + read <= usize::MAX,
        ensures
            (final(self)@, result_view(frame)) == old(self)@.counting(read as int),
            (final(self).received(), result_view(frame)) == stream_step(
                old(self).received(),
                old(self)@.chunk(read as int),
            ),
            read <= old(self).spare().len() ==> final(self).valid(),
            frame is Ok ==> final(self).wf() && final(self).spare().len() > 0,
            read < old(self).spare().len() ==> final(self).spare() == old(self).spare().skip(
                read as int,
            ),
            frame matches Ok(Some(_)) ==> final(self)@ == RecvView::fresh(),
    {
        proof {
            lemma_counting_is_a_stream_step(self@, read as int);
        }
        match self {
            ResponseRecvState::Header { bytes, filled } => {
                *filled = *filled + read;
                if *filled < HEADER_SIZE {
                    return Ok(None);
                }
                let whole: &[u8] = bytes;
                let header = match Header::from_bytes(whole) {
                    Some(header) => header,
                    None => return Err(Error::ProtocolError("received an invalid response header")),
                };
                let len = match response_payload_size(header) {
                    Ok(len) => len,
                    Err(err) => return Err(err),
                };
                if len == 0 {
                    *self = Self::new();
                    let nothing: [u8; 0] = [];
                    assert(nothing@ =~= Seq::<u8>::empty());
                    match decode_response_frame(header.kind, &nothing) {
                        Ok(frame) => Ok(Some(frame)),
                        Err(err) => Err(err),
                    }
                } else {
                    *self =
                    ResponseRecvState::Payload {
                        kind: header.kind,
                        buffer: [0;ACKED_USER_RESPONSE_PAYLOAD_SIZE],
                        len,
                        filled: 0,
                    };
                    assert(self@->buffer =~= zeros(ACKED_USER_RESPONSE_PAYLOAD_SIZE as nat));
                    Ok(None)
                }
            },
            ResponseRecvState::Payload { kind, buffer, len, filled } => {
                *filled = *filled + read;
                if *filled < *len {
                    return Ok(None);
                }
                let kind: u32 = *kind;
                let payload: [u8; ACKED_USER_RESPONSE_PAYLOAD_SIZE] = *buffer;
                assert(payload@.take(*len as int) =~= payload@);
                *self = Self::new();
                match decode_response_frame(kind, &payload) {
                    Ok(frame) => Ok(Some(frame)),
                    Err(err) => Err(err),
                }
            },
        }
    }
}

/// The model tells all there is to a state: states with the same model are the same.
pub proof fn law_model_determines_state(one: ResponseRecvState, other: ResponseRecvState)
    requires
        one@ == other@,
    ensures
        one == other,
{
    match (one, other) {
        (
            ResponseRecvState::Header { bytes, .. },
            ResponseRecvState::Header { bytes: other_bytes, .. },
        ) => {
            assert(bytes =~= other_bytes);
        },
        (
            ResponseRecvState::Payload { buffer, .. },
            ResponseRecvState::Payload { buffer: other_buffer, .. },
        ) => {
            assert(buffer =~= other_buffer);
        },
        _ => {},
    }
}

/// Where reading can go on, there is room for at least one byte, and how much there is follows from
/// what has arrived. A read that delivers nothing can then only mean that the peer is gone.
pub proof fn law_room_follows_from_what_arrived(state: RecvView)
    requires
        state.wf(),
    ensures
        state.spare().len() > 0,
        state.spare().len() == room(state.received()),
{
    if let RecvView::Payload { kind, len, .. } = state {
        law_header_read_back(Header { kind, size: len as u32 });
    }
}

/// Counting bytes in is a step of the stream, and success leaves room for more.
proof fn lemma_counting_is_a_stream_step(state: RecvView, read: int)
    requires
        state.wf() || state.is_stuck(),
        read >= 0,
    ensures
        (state.counting(read).0.received(), state.counting(read).1) == stream_step(
            state.received(),
            state.chunk(read),
        ),
        state.counting(read).1 is Ok ==> state.counting(read).0.wf() && state.counting(
            read,
        ).0.spare().len() > 0,
        read <= state.spare().len() ==> state.counting(read).0.wf() || state.counting(
            read,
        ).0.is_stuck(),
        read < state.spare().len() ==> state.counting(read).0.spare() == state.spare().skip(read),
{
    let got = state.received() + state.chunk(read);
    let after = state.counting(read).0;
    match state {
        RecvView::Header { bytes, filled } => {
            assert(got =~= if filled + read < HEADER_SIZE {
                bytes.take(filled + read)
            } else {
                bytes
            });
            if filled + read >= HEADER_SIZE {
                assert(got.take(HEADER_SIZE as int) =~= bytes);
                assert(got.skip(HEADER_SIZE as int) =~= Seq::<u8>::empty());
                law_header_write_back(bytes);
                if after is Payload {
                    assert(after.received() =~= got);
                }
                if announced_size(Header::of_wire(bytes)) is Ok {
                    assert(RecvView::fresh().received() =~= Seq::<u8>::empty());
                }
            } else {
                assert(after.spare() =~= state.spare().skip(read));
            }
        },
        RecvView::Payload { kind, buffer, len, filled } => {
            let header = Header { kind, size: len as u32 };
            law_header_read_back(header);
            let arrived = if filled + read < len {
                buffer.take(filled + read)
            } else {
                buffer
            };
            assert(got =~= header.wire() + arrived);
            assert(got.take(HEADER_SIZE as int) =~= header.wire());
            assert(got.skip(HEADER_SIZE as int) =~= arrived);
            if filled + read < len {
                assert(after.spare() =~= state.spare().skip(read));
            } else {
                assert(buffer.take(len) =~= buffer);
                assert(RecvView::fresh().received() =~= Seq::<u8>::empty());
            }
        },
    }
}

/// Taking in bytes for which there is room is a step of the stream, and success leaves room for more.
pub proof fn law_taking_in_is_a_stream_step(state: RecvView, chunk: Seq<u8>)
    requires
        state.wf(),
        chunk.len() <= state.spare().len(),
    ensures
        (state.taking_in(chunk).0.received(), state.taking_in(chunk).1) == stream_step(
            state.received(),
            chunk,
        ),
        state.taking_in(chunk).1 is Ok ==> state.taking_in(chunk).0.wf(),
        state.taking_in(chunk).1 matches Ok(Some(_)) ==> state.taking_in(chunk).0
            == RecvView::fresh(),
        state == RecvView::fresh() && chunk.len() == 0 ==> state.taking_in(chunk).0 == state,
{
    let held = state.holding(chunk);
    assert(held.wf());
    assert(held.received() =~= state.received()) by {
        match state {
            RecvView::Header { bytes, filled } => {
                assert(held->bytes.take(filled) =~= bytes.take(filled));
            },
            RecvView::Payload { buffer, filled, .. } => {
                assert(held->buffer.take(filled) =~= buffer.take(filled));
            },
        }
    }
    assert(held.chunk(chunk.len() as int) =~= chunk);
    lemma_counting_is_a_stream_step(held, chunk.len() as int);
    if state == RecvView::fresh() && chunk.len() == 0 {
        assert(held->bytes =~= zeros(HEADER_SIZE as nat));
    }
}

/// The frames, one behind the other on the wire.
pub open spec fn wires(frames: Seq<ResponseFrame>) -> Seq<u8>
    decreases frames.len(),
{
    if frames.len() == 0 {
        Seq::empty()
    } else {
        wires(frames.drop_last()) + frames.last().wire()
    }
}

/// The state, and the frames that are returned on the way, once `chunks` have arrived one after the
/// other.
pub open spec fn feed(state: RecvView, chunks: Seq<Seq<u8>>) -> (
    RecvView,
    Result<Seq<ResponseFrame>, ErrorView>,
)
    decreases chunks.len(),
{
    if chunks.len() == 0 {
        (state, Ok(Seq::empty()))
    } else {
        let (state, frames) = feed(state, chunks.drop_last());
        match frames {
            Err(err) => (state, Err(err)),
            Ok(frames) => match state.taking_in(chunks.last()) {
                (state, Err(err)) => (state, Err(err)),
                (state, Ok(None)) => (state, Ok(frames)),
                (state, Ok(Some(frame))) => (state, Ok(frames.push(frame))),
            },
        }
    }
}

/// Whether each of these chunks finds room when it arrives.
pub open spec fn fits(state: RecvView, chunks: Seq<Seq<u8>>) -> bool
    decreases chunks.len(),
{
    chunks.len() > 0 ==> fits(state, chunks.drop_last()) && chunks.last().len() <= feed(
        state,
        chunks.drop_last(),
    ).0.spare().len()
}

/// A part of a frame is held and returns nothing; the whole frame is returned and nothing is held.
pub proof fn law_part_of_a_response_is_held(frame: ResponseFrame, received: Seq<u8>, chunk: Seq<u8>)
    requires
        (received + chunk).is_prefix_of(frame.wire()),
    ensures
        stream_step(received, chunk) == (if received + chunk == frame.wire() {
            (Seq::empty(), Ok::<_, ErrorView>(Some(frame)))
        } else {
            (received + chunk, Ok::<_, ErrorView>(None))
        }),
{
    let got = received + chunk;
    let header = Header { kind: frame.kind(), size: frame.payload().len() as u32 };
    law_header_read_back(header);
    law_datagram_read_back(frame);
    assert(frame.wire().take(HEADER_SIZE as int) =~= header.wire());
    assert(frame.wire().skip(HEADER_SIZE as int) =~= frame.payload());
    if got.len() >= HEADER_SIZE {
        assert(got.take(HEADER_SIZE as int) =~= header.wire());
    }
    if got.len() == frame.wire().len() {
        assert(got =~= frame.wire());
    }
}

/// A frame is a header, and a payload where it is a verdict.
pub(crate) proof fn lemma_wire_len(frame: ResponseFrame)
    ensures
        frame.wire().len() == HEADER_SIZE + if frame is Ack {
            ACKED_USER_RESPONSE_PAYLOAD_SIZE as int
        } else {
            0
        },
{
    law_header_read_back(Header { kind: frame.kind(), size: frame.payload().len() as u32 });
    if let ResponseFrame::Ack { request_id, .. } = frame {
        law_u64_bytes_read_back(request_id);
    }
}

/// The frames up to some place are a part of the wire, and the next frame follows them.
pub(crate) proof fn lemma_wires(frames: Seq<ResponseFrame>, n: int)
    requires
        0 <= n <= frames.len(),
    ensures
        wires(frames.take(n)).is_prefix_of(wires(frames)),
        n < frames.len() ==> wires(frames.take(n + 1)) == wires(frames.take(n)) + frames[n].wire(),
        n < frames.len() ==> wires(frames.take(n + 1)).is_prefix_of(wires(frames)),
        n == frames.len() ==> wires(frames.take(n)) == wires(frames),
    decreases frames.len() - n,
{
    if n == frames.len() {
        assert(frames.take(n) =~= frames);
    } else {
        lemma_wires(frames, n + 1);
        assert(frames.take(n + 1).drop_last() =~= frames.take(n));
        assert(frames.take(n + 1).last() == frames[n]);
    }
}

/// What a piece of the wire does that arrives behind the frames up to some place and a part of the
/// next, if there is room for it: it completes the next frame, or not.
pub(crate) proof fn lemma_next_piece(
    frames: Seq<ResponseFrame>,
    n: int,
    received: Seq<u8>,
    chunk: Seq<u8>,
)
    requires
        0 <= n <= frames.len(),
        (wires(frames.take(n)) + received + chunk).is_prefix_of(wires(frames)),
        n < frames.len() ==> received.len() < frames[n].wire().len(),
        chunk.len() <= room(received),
    ensures
        n == frames.len() ==> received.len() == 0 && chunk.len() == 0,
        n < frames.len() ==> stream_step(received, chunk) == (if received + chunk
            == frames[n].wire() {
            (Seq::empty(), Ok::<_, ErrorView>(Some(frames[n])))
        } else {
            (received + chunk, Ok::<_, ErrorView>(None))
        }),
        n < frames.len() && received + chunk != frames[n].wire() ==> (received + chunk).len()
            < frames[n].wire().len(),
{
    lemma_wires(frames, n);
    if n < frames.len() {
        let before = wires(frames.take(n));
        let frame = frames[n];
        lemma_wire_len(frame);
        let got = received + chunk;
        let through = before + frame.wire();
        assert(got.len() <= frame.wire().len());
        assert forall|i: int| 0 <= i < got.len() implies got[i] == frame.wire()[i] by {
            assert((before + received + chunk)[before.len() + i] == got[i]);
            assert(through[before.len() + i] == frame.wire()[i]);
            assert(through[before.len() + i] == wires(frames)[before.len() + i]);
        }
        assert(got =~= frame.wire().take(got.len() as int));
        law_part_of_a_response_is_held(frame, received, chunk);
        if got.len() == frame.wire().len() {
            assert(got =~= frame.wire());
        }
    }
}

pub(crate) proof fn lemma_flatten_last(chunks: Seq<Seq<u8>>)
    requires
        chunks.len() > 0,
    ensures
        chunks.flatten() == chunks.drop_last().flatten() + chunks.last(),
{
    chunks.lemma_flatten_and_flatten_alt_are_equivalent();
    chunks.drop_last().lemma_flatten_and_flatten_alt_are_equivalent();
}

/// However a byte stream splits the responses that the server sends one behind the other, they are
/// returned in order, each by the piece that holds its last byte, and none is refused. What is held
/// in between is what has arrived of the next, and there is room for more of it. Once the last one is
/// complete, the state is a fresh one.
pub proof fn law_stream_split_is_irrelevant(frames: Seq<ResponseFrame>, chunks: Seq<Seq<u8>>)
    requires
        chunks.flatten().is_prefix_of(wires(frames)),
        fits(RecvView::fresh(), chunks),
    ensures
        ({
            let (state, returned) = feed(RecvView::fresh(), chunks);
            &&& returned matches Ok(done)
            &&& done.is_prefix_of(frames)
            &&& wires(done) + state.received() == chunks.flatten()
            &&& done.len() < frames.len() ==> state.received().len()
                < frames[done.len() as int].wire().len()
            &&& state.wf()
            &&& state.received().len() == 0 ==> state == RecvView::fresh()
            &&& chunks.flatten() == wires(frames) ==> done == frames && state == RecvView::fresh()
        }),
    decreases chunks.len(),
{
    let (state, returned) = feed(RecvView::fresh(), chunks);
    if chunks.len() == 0 {
        assert(RecvView::fresh().received() =~= Seq::<u8>::empty());
        assert(wires(Seq::<ResponseFrame>::empty()) + state.received() =~= chunks.flatten());
        if frames.len() > 0 {
            lemma_wire_len(frames[0]);
        }
    } else {
        let before = chunks.drop_last();
        let chunk = chunks.last();
        lemma_flatten_last(chunks);
        assert(before.flatten().is_prefix_of(wires(frames)));
        law_stream_split_is_irrelevant(frames, before);
        let (held, first) = feed(RecvView::fresh(), before);
        let done = first->Ok_0;
        let n = done.len() as int;
        assert(done =~= frames.take(n));
        law_room_follows_from_what_arrived(held);
        law_taking_in_is_a_stream_step(held, chunk);
        assert(wires(done) + held.received() + chunk =~= chunks.flatten());
        lemma_next_piece(frames, n, held.received(), chunk);
        if n < frames.len() {
            lemma_wires(frames, n);
            if held.received() + chunk == frames[n].wire() {
                assert(done.push(frames[n]) =~= frames.take(n + 1));
                assert(RecvView::fresh().received() =~= Seq::<u8>::empty());
                assert(wires(frames.take(n + 1)) + Seq::<u8>::empty() =~= chunks.flatten());
                if n + 1 < frames.len() {
                    lemma_wire_len(frames[n + 1]);
                }
            } else {
                assert(wires(done) + state.received() =~= chunks.flatten());
            }
        }
    }
    let done = returned->Ok_0;
    let n = done.len() as int;
    assert(done =~= frames.take(n));
    lemma_wires(frames, n);
    if n == frames.len() {
        assert(done =~= frames);
    }
}

/// Single bytes always find room, so that the responses of a server can be read one byte at a time.
pub proof fn law_single_bytes_fit(frames: Seq<ResponseFrame>, chunks: Seq<Seq<u8>>)
    requires
        chunks.flatten().is_prefix_of(wires(frames)),
        forall|i: int| 0 <= i < chunks.len() ==> (#[trigger] chunks[i]).len() <= 1,
    ensures
        fits(RecvView::fresh(), chunks),
    decreases chunks.len(),
{
    if chunks.len() > 0 {
        let before = chunks.drop_last();
        lemma_flatten_last(chunks);
        law_single_bytes_fit(frames, before);
        law_stream_split_is_irrelevant(frames, before);
        law_room_follows_from_what_arrived(feed(RecvView::fresh(), before).0);
        assert(chunks[chunks.len() - 1].len() <= 1);
    }
}

/// A wait that stops between two pieces loses nothing: reading the first pieces and later the others
/// comes to the same as reading all of them at once.
pub proof fn law_stream_resumes(received: Seq<u8>, first: Seq<u8>, second: Seq<u8>)
    requires
        stream_step(received, first).1 == Ok::<Option<ResponseFrame>, ErrorView>(None),
    ensures
        stream_step(received, first).0 == received + first,
        stream_step(stream_step(received, first).0, second) == stream_step(
            received,
            first + second,
        ),
{
    assert((received + first) + second =~= received + (first + second));
}

/// What a stream returns for the bytes of a datagram is what the datagram is read as, unless the
/// datagram is too short or too long for the response that it announces.
pub proof fn law_stream_agrees_with_datagram(received: Seq<u8>)
    requires
        received.len() >= HEADER_SIZE,
        announced_size(Header::of_wire(received.take(HEADER_SIZE as int))) matches Ok(size)
            ==> received.len() == HEADER_SIZE + size,
    ensures
        stream_step(Seq::empty(), received).1 == (match frame_of_datagram(received) {
            Ok(frame) => Ok(Some(frame)),
            Err(err) => Err(err),
        }),
{
    assert(Seq::<u8>::empty() + received =~= received);
}

/// The bytes that complete a response return it, whatever part of it had arrived before, and nothing
/// is held back.
pub proof fn law_stream_holds_nothing_back(received: Seq<u8>, chunk: Seq<u8>, frame: ResponseFrame)
    requires
        received + chunk == frame.wire(),
    ensures
        stream_step(received, chunk) == (Seq::<u8>::empty(), Ok::<_, ErrorView>(Some(frame))),
{
    law_part_of_a_response_is_held(frame, received, chunk);
}

/// What a stream returns depends on the bytes that have arrived, not on which of them arrived last.
pub proof fn law_stream_depends_on_the_bytes_alone(
    received: Seq<u8>,
    chunk: Seq<u8>,
    other_received: Seq<u8>,
    other_chunk: Seq<u8>,
)
    requires
        received + chunk == other_received + other_chunk,
    ensures
        stream_step(received, chunk) == stream_step(other_received, other_chunk),
{
}

/// What the bytes that have arrived of a response come to. Less than a header is held. A header that
/// is not one of a response is refused as soon as it is complete, and held. A response without a payload
/// is returned with its header, a verdict with its last byte; a verdict of no known status is refused.
pub proof fn law_stream_outcomes(received: Seq<u8>, chunk: Seq<u8>)
    ensures
        ({
            let got = received + chunk;
            let (held, result) = stream_step(received, chunk);
            let kind = u32_of_bytes(got.subrange(0, 4));
            let size = u32_of_bytes(got.subrange(4, 8));
            let known = kind == 1 || kind == 3 || kind == 0xffff_ffff;
            let right = size == if kind == 0xffff_ffff {
                9u32
            } else {
                0u32
            };
            &&& got.len() < 8 ==> held == got && result == Ok::<Option<ResponseFrame>, ErrorView>(
                None,
            )
            &&& got.len() >= 8 && !known ==> held == got && result == Err::<
                Option<ResponseFrame>,
                _,
            >(ErrorView::Protocol("received an unknown response kind"@))
            &&& got.len() >= 8 && known && !right ==> held == got && result == Err::<
                Option<ResponseFrame>,
                _,
            >(ErrorView::Protocol("received a response with an unexpected size"@))
            &&& got.len() >= 8 && kind == 1 && right ==> held.len() == 0 && result == Ok::<
                _,
                ErrorView,
            >(Some(ResponseFrame::CrashAck))
            &&& got.len() >= 8 && kind == 3 && right ==> held.len() == 0 && result == Ok::<
                _,
                ErrorView,
            >(Some(ResponseFrame::Pong))
            &&& 8 <= got.len() < 17 && kind == 0xffff_ffff && right ==> held == got && result
                == Ok::<Option<ResponseFrame>, ErrorView>(None)
            &&& got.len() == 17 && kind == 0xffff_ffff && right && got[16] > 2 ==> held.len() == 0
                && result == Err::<Option<ResponseFrame>, _>(
                ErrorView::Protocol("acknowledged user response has an unknown status"@),
            )
            &&& got.len() == 17 && kind == 0xffff_ffff && right && got[16] <= 2 ==> held.len() == 0
                && (result matches Ok(Some(frame)) && frame.wire() == got)
        }),
{
    let got = received + chunk;
    if got.len() >= 8 {
        assert(got.take(8).take(4) =~= got.subrange(0, 4));
        assert(got.take(8).skip(4) =~= got.subrange(4, 8));
        if got.len() == 17 {
            law_acked_response_is_read_by_its_bytes(got.skip(8));
            law_datagrams_are_refused_for_what_is_wrong(got);
            if frame_of_datagram(got) is Ok {
                law_datagram_write_back(got);
            }
        }
    }
}

/// First a header is waited for, and behind it the payload that a verdict has.
pub proof fn law_room_is_the_rest_of_a_part(received: Seq<u8>)
    ensures
        received.len() < 8 ==> received.len() + room(received) == 8,
        8 <= received.len() <= 17 ==> received.len() + room(received) == 17,
{
}

/// A part of the room for a header or a payload holds what has arrived, and the other part is the room
/// that is left.
pub proof fn law_buffers_are_what_arrived_and_what_is_left(state: RecvView)
    requires
        state.wf(),
    ensures
        state matches RecvView::Header { bytes, filled } ==> state.received() + state.spare()
            == bytes && state.received().len() == filled,
        state matches RecvView::Payload { kind, buffer, len, filled } ==> state.received()
            + state.spare() == (Header { kind, size: len as u32 }).wire() + buffer
            && state.received().len() == 8 + filled,
{
    match state {
        RecvView::Header { bytes, filled } => {
            assert(state.received() + state.spare() =~= bytes);
        },
        RecvView::Payload { kind, buffer, len, filled } => {
            law_header_read_back(Header { kind, size: len as u32 });
            assert(state.received() + state.spare() =~= Header { kind, size: len as u32 }.wire()
                + buffer);
        },
    }
}

/// Putting bytes into the room for them overwrites the beginning of that room and nothing else, and
/// counts none of them in.
pub proof fn law_holding_changes_the_room_alone(state: RecvView, chunk: Seq<u8>)
    requires
        state.wf(),
        chunk.len() <= state.spare().len(),
    ensures
        state.holding(chunk).wf(),
        state.holding(chunk).received() == state.received(),
        state.holding(chunk).spare() == chunk + state.spare().skip(chunk.len() as int),
        state.holding(chunk).filled() == state.filled(),
        state.holding(chunk) is Header <==> state is Header,
{
    let held = state.holding(chunk);
    match state {
        RecvView::Header { bytes, filled } => {
            assert(held.received() =~= state.received());
        },
        RecvView::Payload { buffer, filled, .. } => {
            assert(held->buffer.take(filled) =~= buffer.take(filled));
        },
    }
    assert(held.spare() =~= chunk + state.spare().skip(chunk.len() as int));
}

/// Counting in fewer bytes than are missing moves them from the room to what has arrived, and nothing
/// is returned. Counting in the last of a header that is refused leaves no room, and keeps the header.
/// Counting in the last of a verdict's header makes room for its payload, all zero. Counting in the last
/// of a response, good or bad, leaves a fresh state.
pub proof fn law_counting_outcomes(state: RecvView, read: int)
    requires
        state.wf(),
        0 <= read <= state.spare().len(),
    ensures
        ({
            let (after, result) = state.counting(read);
            let got = state.received() + state.spare().take(read);
            &&& result == stream_step(state.received(), state.spare().take(read)).1
            &&& after.received() == stream_step(state.received(), state.spare().take(read)).0
            &&& read < state.spare().len() ==> {
                &&& result == Ok::<Option<ResponseFrame>, ErrorView>(None)
                &&& after.received() == got
                &&& after.spare() == state.spare().skip(read)
                &&& after is Header <==> state is Header
            }
            &&& read == state.spare().len() && state is Header && result is Err ==> {
                &&& after is Header
                &&& after.is_stuck()
                &&& after.received() == got
                &&& after.spare().len() == 0
            }
            &&& read == state.spare().len() && state is Header && result == Ok::<
                Option<ResponseFrame>,
                ErrorView,
            >(None) ==> {
                &&& after is Payload
                &&& after.received() == got
                &&& after.spare() == Seq::new(9, |i: int| 0u8)
            }
            &&& read == state.spare().len() && state is Payload ==> after == RecvView::fresh()
                && result != Ok::<Option<ResponseFrame>, ErrorView>(None)
            &&& result matches Ok(Some(_)) ==> after == RecvView::fresh()
        }),
{
    lemma_counting_is_a_stream_step(state, read);
    law_stream_outcomes(state.received(), state.spare().take(read));
    law_room_follows_from_what_arrived(state);
    let (after, result) = state.counting(read);
    let got = state.received() + state.spare().take(read);
    match state {
        RecvView::Header { bytes, filled } => {
            assert(got =~= bytes.take(filled + read));
            if read == state.spare().len() {
                assert(got =~= bytes);
                law_header_write_back(bytes);
                if after is Payload {
                    assert(after.spare() =~= Seq::new(9, |i: int| 0u8));
                    assert(after.received() =~= got);
                }
            } else {
                assert(after.received() =~= got);
            }
        },
        RecvView::Payload { kind, buffer, len, filled } => {
            law_header_read_back(Header { kind, size: len as u32 });
            if read < state.spare().len() {
                assert(after.received() =~= got);
            }
        },
    }
}

/// A fresh state has received nothing, and its room is a header's, all zero.
pub proof fn law_fresh_states_have_received_nothing()
    ensures
        RecvView::fresh().wf(),
        RecvView::fresh().received().len() == 0,
        RecvView::fresh().spare() == Seq::new(8, |i: int| 0u8),
{
    assert(RecvView::fresh().spare() =~= Seq::new(8, |i: int| 0u8));
}

} // verus!
