//! Writing frames, whatever part of them the socket takes at a time.
use crate::bytes::{law_u32_bytes_read_back, u32_bytes, u32_to_ne_bytes};
use crate::error::{raise, raised, result_view, Error, ErrorKind, ErrorView, IoError};
use crate::wire::{law_header_layout, law_header_read_back, Header, CRASH, HEADER_SIZE};
use vstd::prelude::*;
use vstd::slice::{slice_subrange, slice_to_vec};

verus! {

/// How many of `written` bytes go to a header of which `header_offset` bytes out of `header_len` are
/// already out.
pub open spec fn header_share(written: int, header_len: int, header_offset: int) -> int {
    if header_len <= header_offset {
        0
    } else if written <= header_len - header_offset {
        written
    } else {
        header_len - header_offset
    }
}

/// Advances the header and payload write offsets by `written` bytes, filling the header before the
/// payload to mirror how the two vectored buffers drain.
pub fn advance_send_offsets(
    written: usize,
    header_len: usize,
    header_offset: &mut usize,
    payload_offset: &mut usize,
)
    requires
        *old(payload_offset) + written - header_share(
            written as int,
            header_len as int,
            *old(header_offset) as int,
        ) <= usize::MAX,
    ensures
        *final(header_offset) == *old(header_offset) + header_share(
            written as int,
            header_len as int,
            *old(header_offset) as int,
        ),
        *final(payload_offset) == *old(payload_offset) + written - header_share(
            written as int,
            header_len as int,
            *old(header_offset) as int,
        ),
        *final(header_offset) + *final(payload_offset) == *old(header_offset) + *old(payload_offset)
            + written,
        *final(header_offset) > *old(header_offset) ==> *final(header_offset) <= header_len,
        *final(header_offset) >= *old(header_offset),
        *final(payload_offset) > *old(payload_offset) ==> *final(header_offset) >= header_len,
        *final(payload_offset) >= *old(payload_offset),
{
    let header_remaining: usize = header_len.saturating_sub(*header_offset);
    let header_written: usize = if written <= header_remaining {
        written
    } else {
        header_remaining
    };
    *header_offset = *header_offset + header_written;
    *payload_offset = *payload_offset + (written - header_written);
}

/// The frame of a kind around a payload, on the wire.
pub open spec fn frame_wire(kind: u32, payload: Seq<u8>) -> Seq<u8> {
    Header { kind, size: payload.len() as u32 }.wire() + payload
}

/// Whether these bytes are a frame of this kind around this payload, by what stands where.
pub open spec fn is_frame(bytes: Seq<u8>, kind: u32, payload: Seq<u8>) -> bool {
    &&& bytes.len() == 8 + payload.len()
    &&& bytes.subrange(0, 4) == u32_bytes(kind)
    &&& bytes.subrange(4, 8) == u32_bytes(payload.len() as u32)
    &&& bytes.skip(8) == payload
}

/// The failure of a write that the socket takes nothing of.
pub open spec fn no_progress() -> ErrorView {
    raised(ErrorKind::WriteZero, "IPC socket write made no progress"@)
}

/// What is left to write of a frame once a write has been tried, or why writing ends.
pub open spec fn send_step(unsent: Seq<u8>, sent: Result<usize, IoError>) -> Result<
    Seq<u8>,
    ErrorView,
> {
    match sent {
        Err(err) => if err.kind == ErrorKind::Interrupted {
            Ok(unsent)
        } else {
            Err(ErrorView::Io(err@))
        },
        Ok(written) => if written == 0 {
            Err(no_progress())
        } else if written >= unsent.len() {
            Ok(Seq::empty())
        } else {
            Ok(unsent.skip(written as int))
        },
    }
}

/// What follows the header of a frame. The caller's bytes stay where they are, so that the context of
/// a crash is copied neither to the stack nor to the heap.
pub enum Payload<'a> {
    /// The caller's bytes.
    Borrowed(&'a [u8]),
    /// Bytes that were put together for the frame.
    Owned(Vec<u8>),
}

impl<'a> View for Payload<'a> {
    type V = Seq<u8>;

    open spec fn view(&self) -> Seq<u8> {
        match self {
            Payload::Borrowed(bytes) => bytes@,
            Payload::Owned(bytes) => bytes@,
        }
    }
}

impl<'a> Payload<'a> {
    /// The bytes, wherever they are.
    pub fn as_slice(&self) -> (bytes: &[u8])
        ensures
            bytes@ == self@,
    {
        match self {
            Payload::Borrowed(bytes) => bytes,
            Payload::Owned(bytes) => bytes.as_slice(),
        }
    }
}

/// A frame on its way out.
pub struct SendFrame<'a> {
    header: [u8; HEADER_SIZE],
    payload: Payload<'a>,
    header_offset: usize,
    payload_offset: usize,
}

impl<'a> SendFrame<'a> {
    /// The payload starts only when the header is out.
    pub closed spec fn wf(self) -> bool {
        &&& self.header_offset <= HEADER_SIZE
        &&& self.payload_offset <= self.payload@.len()
        &&& self.payload_offset > 0 ==> self.header_offset == HEADER_SIZE
    }

    /// What is left to write.
    pub closed spec fn unsent(self) -> Seq<u8> {
        self.header@.skip(self.header_offset as int) + self.payload@.skip(
            self.payload_offset as int,
        )
    }

    /// The two buffers that hold what is left to write, one after the other.
    pub fn buffers(&self) -> (buffers: (&[u8], &[u8]))
        requires
            self.wf(),
        ensures
            buffers.0@ + buffers.1@ == self.unsent(),
    {
        let header: &[u8] = &self.header;
        let payload: &[u8] = self.payload.as_slice();
        let buffers = (
            slice_subrange(header, self.header_offset, header.len()),
            slice_subrange(payload, self.payload_offset, payload.len()),
        );
        assert(buffers.0@ + buffers.1@ =~= self.unsent());
        buffers
    }

    /// Takes note of what became of a write of the [`Self::buffers`]. True when the frame is out.
    ///
    /// A signal is not a framing failure, and giving up on one would retire a connection that is
    /// still perfectly good.
    pub fn advance(&mut self, sent: Result<usize, IoError>) -> (complete: Result<bool, Error>)
        requires
            old(self).wf(),
            old(self).unsent().len() > 0,
        ensures
            final(self).wf(),
            match send_step(old(self).unsent(), sent) {
                Ok(unsent) => complete == Ok::<_, Error>(unsent.len() == 0) && final(self).unsent()
                    == unsent,
                Err(err) => result_view(complete) == Err::<bool, _>(err) && *final(self) == *old(
                    self,
                ),
            },
    {
        let ghost before = *self;
        match sent {
            Err(err) => match err.kind {
                ErrorKind::Interrupted => Ok(false),
                _ => Err(Error::Io(err)),
            },
            Ok(written) => {
                if written == 0 {
                    return Err(raise(ErrorKind::WriteZero, "IPC socket write made no progress"));
                }
                let header_left: usize = self.header.len() - self.header_offset;
                let payload_len: usize = self.payload.as_slice().len();
                let payload_left: usize = payload_len - self.payload_offset;
                let written: usize = if written > header_left && written - header_left
                    > payload_left {
                    header_left + payload_left
                } else {
                    written
                };
                advance_send_offsets(
                    written,
                    self.header.len(),
                    &mut self.header_offset,
                    &mut self.payload_offset,
                );
                assert(self.unsent() =~= if written >= before.unsent().len() {
                    Seq::empty()
                } else {
                    before.unsent().skip(written as int)
                });
                Ok(
                    self.header_offset >= self.header.len() && self.payload_offset >= payload_len,
                )
            },
        }
    }
}

/// Puts a frame together for writing. A payload whose size the header cannot give is refused before
/// anything is written.
pub fn send_frame<'a>(kind: u32, buf: Payload<'a>) -> (frame: Result<SendFrame<'a>, Error>)
    ensures
        match frame {
            Ok(frame) => {
                &&& buf@.len() <= u32::MAX
                &&& frame.wf()
                &&& frame.unsent() == frame_wire(kind, buf@)
                &&& is_frame(frame.unsent(), kind, buf@)
                &&& frame.unsent().len() == HEADER_SIZE + buf@.len()
            },
            Err(err) => buf@.len() > u32::MAX && err@ == ErrorView::Protocol(
                "the payload is too large"@,
            ),
        },
{
    let len: usize = buf.as_slice().len();
    if len > u32::MAX as usize {
        return Err(Error::ProtocolError("the payload is too large"));
    }
    let header = Header { kind, size: len as u32 };
    let frame = SendFrame {
        header: header.as_bytes(),
        payload: buf,
        header_offset: 0,
        payload_offset: 0,
    };
    proof {
        law_header_read_back(header);
        law_frame_layout(kind, frame.payload@);
    }
    assert(frame.unsent() =~= frame_wire(kind, frame.payload@));
    Ok(frame)
}

/// The frame with which a macOS client tells the server its process id, so that the server can pair
/// the client's socket with its mach port. Crash requests do not go over the socket there, which leaves
/// their kind free for it.
pub fn announce_process(pid: u32) -> (frame: Result<SendFrame<'static>, Error>)
    ensures
        frame matches Ok(frame) && {
            &&& frame.wf()
            &&& frame.unsent() == frame_wire(CRASH, u32_bytes(pid))
            &&& is_frame(frame.unsent(), 0, u32_bytes(pid))
            &&& frame.unsent().len() == HEADER_SIZE + 4
        },
{
    proof {
        law_u32_bytes_read_back(pid);
    }
    send_frame(CRASH, Payload::Owned(slice_to_vec(&u32_to_ne_bytes(pid))))
}

/// What the server reads off the wire is the kind and the payload that the frame was made for.
pub proof fn law_frame_read_back(kind: u32, payload: Seq<u8>)
    requires
        payload.len() <= u32::MAX,
    ensures
        frame_wire(kind, payload).len() == HEADER_SIZE + payload.len(),
        Header::of_wire(frame_wire(kind, payload).take(HEADER_SIZE as int)).kind == kind,
        Header::of_wire(frame_wire(kind, payload).take(HEADER_SIZE as int)).size == payload.len(),
        frame_wire(kind, payload).skip(HEADER_SIZE as int) == payload,
{
    let header = Header { kind, size: payload.len() as u32 };
    law_header_read_back(header);
    assert(frame_wire(kind, payload).take(HEADER_SIZE as int) =~= header.wire());
    assert(frame_wire(kind, payload).skip(HEADER_SIZE as int) =~= payload);
}

/// What the socket has taken of `unsent` in these writes, one after the other.
pub open spec fn taken(unsent: Seq<u8>, writes: Seq<Result<usize, IoError>>) -> Seq<u8>
    decreases writes.len(),
{
    if writes.len() == 0 {
        Seq::empty()
    } else {
        match send_step(unsent, writes.first()) {
            Ok(rest) => unsent.take(unsent.len() - rest.len()) + taken(rest, writes.drop_first()),
            Err(_) => Seq::empty(),
        }
    }
}

/// What is left of `unsent` after these writes, one after the other.
pub open spec fn left(unsent: Seq<u8>, writes: Seq<Result<usize, IoError>>) -> Seq<u8>
    decreases writes.len(),
{
    if writes.len() == 0 {
        unsent
    } else {
        match send_step(unsent, writes.first()) {
            Ok(rest) => left(rest, writes.drop_first()),
            Err(_) => unsent,
        }
    }
}

/// However the socket splits a frame over several writes, what it has taken and what is left make up
/// the frame: no byte is lost, repeated or moved.
pub proof fn law_writes_deliver_the_frame(unsent: Seq<u8>, writes: Seq<Result<usize, IoError>>)
    ensures
        taken(unsent, writes) + left(unsent, writes) == unsent,
    decreases writes.len(),
{
    if writes.len() == 0 {
        assert(taken(unsent, writes) + left(unsent, writes) =~= unsent);
    } else {
        match send_step(unsent, writes.first()) {
            Ok(rest) => {
                law_writes_deliver_the_frame(rest, writes.drop_first());
                let head = unsent.take(unsent.len() - rest.len());
                assert(head + rest =~= unsent);
                assert((head + taken(rest, writes.drop_first())) + left(rest, writes.drop_first())
                    =~= head + (taken(rest, writes.drop_first()) + left(
                    rest,
                    writes.drop_first(),
                )));
            },
            Err(_) => {
                assert(taken(unsent, writes) + left(unsent, writes) =~= unsent);
            },
        }
    }
}

/// A header that is not out takes all of the bytes that it has room for before the payload takes any,
/// and no byte is counted twice or not at all.
pub proof fn law_headers_fill_first(written: nat, header_len: nat, header_offset: nat)
    ensures
        ({
            let share = header_share(written as int, header_len as int, header_offset as int);
            &&& 0 <= share <= written
            &&& share > 0 ==> header_offset + share <= header_len
            &&& share < written ==> header_offset + share >= header_len
        }),
{
}

/// Where the parts of a frame stand on the wire: its kind, the size of its payload, its payload.
pub proof fn law_frame_layout(kind: u32, payload: Seq<u8>)
    requires
        payload.len() <= u32::MAX,
    ensures
        frame_wire(kind, payload).len() == 8 + payload.len(),
        frame_wire(kind, payload).subrange(0, 4) == u32_bytes(kind),
        frame_wire(kind, payload).subrange(4, 8) == u32_bytes(payload.len() as u32),
        frame_wire(kind, payload).skip(8) == payload,
{
    let header = Header { kind, size: payload.len() as u32 };
    law_header_layout(header);
    law_frame_read_back(kind, payload);
    assert(frame_wire(kind, payload).subrange(0, 4) =~= header.wire().subrange(0, 4));
    assert(frame_wire(kind, payload).subrange(4, 8) =~= header.wire().subrange(4, 8));
}

/// A write that takes some of the bytes leaves the others, in order; one that takes them all leaves
/// none.
pub proof fn law_writes_leave_the_rest(unsent: Seq<u8>, written: usize)
    requires
        0 < written <= unsent.len(),
    ensures
        send_step(unsent, Ok(written)) matches Ok(rest) && unsent.take(written as int) + rest
            == unsent,
{
    assert(unsent.take(written as int) + unsent.skip(written as int) =~= unsent);
    if written == unsent.len() {
        assert(unsent.take(written as int) + Seq::empty() =~= unsent);
    }
}

/// A write that says to have taken more than it was given leaves nothing.
pub proof fn law_no_write_takes_more_than_the_frame(unsent: Seq<u8>, written: usize)
    requires
        written > unsent.len(),
    ensures
        send_step(unsent, Ok(written)) == Ok::<_, ErrorView>(Seq::<u8>::empty()),
{
}

/// A write fails if it takes nothing, and for whatever the socket fails for but a signal, which leaves
/// the frame as it was. It fails for nothing else.
pub proof fn law_write_failures(unsent: Seq<u8>, sent: Result<usize, IoError>)
    ensures
        sent == Ok::<usize, IoError>(0) ==> (send_step(unsent, sent) matches Err(
            ErrorView::Io(err),
        ) && err.kind == ErrorKind::WriteZero && err.code is None && err.message
            == "IPC socket write made no progress"@),
        sent matches Err(err) ==> (err.kind == ErrorKind::Interrupted ==> send_step(unsent, sent)
            == Ok::<_, ErrorView>(unsent)),
        sent matches Err(err) ==> (err.kind != ErrorKind::Interrupted ==> send_step(unsent, sent)
            == Err::<Seq<u8>, _>(ErrorView::Io(err@))),
        send_step(unsent, sent) is Err <==> sent == Ok::<usize, IoError>(0) || (sent matches Err(
            err,
        ) && err.kind != ErrorKind::Interrupted),
{
}

} // verus!
