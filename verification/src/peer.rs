use vstd::prelude::*;

use crate::bitfield::Bitfield;
use crate::message::{
    parse_outcome, piece_frame, Cursor, Message, MessageView, ParseOutcome,
    ParsingError, MAX,
};

verus! {

#[verifier::external_type_specification]
#[verifier::external_body]
pub struct ExBytesMut(bytes::BytesMut);

/// The bytes held by a `bytes::BytesMut`.
pub uninterp spec fn bytes_mut_contents(b: bytes::BytesMut) -> Seq<u8>;

/// Calls `bytes::BytesMut::with_capacity`: an empty buffer. The allocation
/// panics above `isize::MAX` bytes, which `requires` leaves out.
#[verifier::external_body]
fn bytes_with_capacity(capacity: usize) -> (res: bytes::BytesMut)
    requires
        capacity <= isize::MAX,
    ensures
        bytes_mut_contents(res) == Seq::<u8>::empty(),
{
    bytes::BytesMut::with_capacity(capacity)
}

/// Calls `bytes::BytesMut::extend_from_slice`: the bytes are appended. It
/// reserves room first, which panics past `isize::MAX` bytes.
#[verifier::external_body]
fn bytes_extend(b: &mut bytes::BytesMut, data: &[u8])
    requires
        bytes_mut_contents(*old(b)).len() + data@.len() <= isize::MAX,
    ensures
        bytes_mut_contents(*final(b)) == bytes_mut_contents(*old(b)) + data@,
{
    b.extend_from_slice(data)
}

/// Reads the bytes of a `bytes::BytesMut` through its `Deref` to `[u8]`.
#[verifier::external_body]
fn bytes_as_slice(b: &bytes::BytesMut) -> (res: &[u8])
    ensures
        res@ == bytes_mut_contents(*b),
{
    &b[..]
}

/// Calls `bytes::Buf::advance` on a `bytes::BytesMut`: the first `cnt`
/// bytes are dropped. It panics when `cnt` exceeds the length.
#[verifier::external_body]
fn bytes_advance(b: &mut bytes::BytesMut, cnt: usize)
    requires
        cnt <= bytes_mut_contents(*old(b)).len(),
    ensures
        bytes_mut_contents(*final(b)) == bytes_mut_contents(*old(b)).skip(cnt as int),
{
    bytes::Buf::advance(b, cnt)
}

/// Calls `bytes::BytesMut::reserve`: the contents stay. It panics when the
/// new capacity overflows, which `requires` leaves out.
#[verifier::external_body]
fn bytes_reserve(b: &mut bytes::BytesMut, additional: usize)
    requires
        bytes_mut_contents(*old(b)).len() + additional <= isize::MAX,
    ensures
        bytes_mut_contents(*final(b)) == bytes_mut_contents(*old(b)),
{
    b.reserve(additional)
}

/// Calls `bytes::BytesMut::is_empty`.
#[verifier::external_body]
fn bytes_is_empty(b: &bytes::BytesMut) -> (res: bool)
    ensures
        res == (bytes_mut_contents(*b).len() == 0),
{
    b.is_empty()
}

/// The bytes read from a peer that are not yet parsed into messages.
#[derive(Debug)]
pub struct FrameBuffer {
    buffer: bytes::BytesMut,
}

impl View for FrameBuffer {
    type V = Seq<u8>;

    closed spec fn view(&self) -> Seq<u8> {
        bytes_mut_contents(self.buffer)
    }
}

/// What `parse_frame` makes of the buffered bytes: the message, if any, and
/// the bytes left buffered.
pub open spec fn frame_result(buffered: Seq<u8>, res: Option<Message>, rest: Seq<u8>) -> bool {
    match parse_outcome(buffered, 0) {
        ParseOutcome::NoFrame { position } => res is None && rest == buffered.skip(position as int),
        ParseOutcome::Frame { message, position } => res matches Some(m) && m@ == message && rest
            == buffered.skip(position as int),
        _ => res is None && rest == buffered,
    }
}

impl FrameBuffer {
    /// An empty buffer with room for 4 KiB.
    pub fn new() -> (res: Self)
        ensures
            res@ == Seq::<u8>::empty(),
    {
        FrameBuffer { buffer: bytes_with_capacity(4 * 1024) }
    }

    /// Appends bytes read from the peer.
    pub fn extend(&mut self, data: &[u8])
        requires
            old(self)@.len() + data@.len() <= isize::MAX,
        ensures
            final(self)@ == old(self)@ + data@,
    {
        bytes_extend(&mut self.buffer, data)
    }

    /// The number of buffered bytes.
    pub fn len(&self) -> (res: usize)
        ensures
            res == self@.len(),
    {
        bytes_as_slice(&self.buffer).len()
    }

    /// Whether nothing is buffered.
    pub fn is_empty(&self) -> (res: bool)
        ensures
            res == (self@.len() == 0),
    {
        bytes_is_empty(&self.buffer)
    }

    /// Whether `parse_frame` would not return: the buffered frame cannot be
    /// parsed (see `ParseOutcome::Aborts`), or it is incomplete and the
    /// buffer is too large to grow by its own length.
    pub fn parse_aborts(&self) -> (res: bool)
        ensures
            res == (parse_outcome(self@, 0) is Aborts || (parse_outcome(self@, 0) is Incomplete
                && self@.len() * 2 > isize::MAX)),
    {
        let bytes = bytes_as_slice(&self.buffer);
        let mut cursor = Cursor::new(bytes);
        if Message::parse_aborts(&cursor) {
            return true;
        }
        if bytes.len() <= isize::MAX as usize / 2 {
            return false;
        }
        match Message::parse(&mut cursor) {
            Err(ParsingError::Incomplete(_)) => true,
            _ => false,
        }
    }

    /// Parses the buffered bytes from the start. Consumed bytes leave the
    /// buffer; an incomplete frame makes room for as many more bytes as are
    /// buffered; a frame that cannot be parsed is left in place.
    pub fn parse_frame(&mut self) -> (res: Option<Message>)
        requires
            !(parse_outcome(old(self)@, 0) is Aborts),
            parse_outcome(old(self)@, 0) is Incomplete ==> old(self)@.len() * 2 <= isize::MAX,
        ensures
            frame_result(old(self)@, res, final(self)@),
            res is Some ==> (parse_outcome(old(self)@, 0) matches ParseOutcome::Frame { position, .. }
                && 0 < position <= old(self)@.len() && final(self)@ == old(self)@.skip(
                position as int,
            )),
            res is None ==> final(self)@.len() <= old(self)@.len(),
    {
        let ghost buffered = self@;
        reveal(parse_outcome);
        let (parsed, len) = {
            let mut buf = Cursor::new(bytes_as_slice(&self.buffer));
            let parsed = Message::parse(&mut buf);
            let len = buf.position();
            buf.set_position(0);
            (parsed, len)
        };
        match parsed {
            Ok(frame) => {
                assert(len <= buffered.len());
                bytes_advance(&mut self.buffer, len);
                frame
            },
            Err(error) => {
                if let ParsingError::Incomplete(n) = error {
                    bytes_reserve(&mut self.buffer, n);
                }
                None
            },
        }
    }
}

/// How a stream that reached its end was left.
#[derive(Debug, Clone, Copy, PartialEq, Eq, Structural)]
pub enum StreamEnd {
    /// Nothing was buffered: a clean shutdown.
    Closed,
    /// A frame was cut off: the peer reset the connection.
    Reset,
}

impl FrameBuffer {
    /// What the end of the stream means: a clean shutdown when nothing is
    /// buffered, a reset when part of a frame is left.
    pub fn end_of_stream(&self) -> (res: StreamEnd)
        ensures
            res == (if self@.len() == 0 {
                StreamEnd::Closed
            } else {
                StreamEnd::Reset
            }),
    {
        if self.is_empty() {
            StreamEnd::Closed
        } else {
            StreamEnd::Reset
        }
    }
}

/// The state kept for a connected peer: the unparsed bytes, whether it
/// choked us and the bitfield it announced.
#[derive(Debug)]
pub struct PeerSession {
    pub frames: FrameBuffer,
    pub choked: bool,
    pub bitfield: Option<Bitfield>,
}

impl PeerSession {
    /// A session with nothing received yet.
    pub fn new() -> (res: Self)
        ensures
            res.frames@ == Seq::<u8>::empty(),
            !res.choked,
            res.bitfield is None,
    {
        PeerSession { frames: FrameBuffer::new(), bitfield: None, choked: false }
    }

    /// Records the peer's bitfield.
    pub fn set_bitfield(&mut self, bitfield: Bitfield)
        ensures
            final(self).bitfield == Some(bitfield),
            final(self).frames@ == old(self).frames@,
            final(self).choked == old(self).choked,
    {
        self.bitfield = Some(bitfield)
    }

    /// Takes the first frame a peer sends: the peer is kept only when that
    /// frame is its bitfield, which is then recorded.
    pub fn accept_first_frame(&mut self, frame: Message) -> (kept: bool)
        ensures
            kept == (frame is Bitfield),
            kept ==> (frame matches Message::Bitfield(b) && final(self).bitfield == Some(b)),
            !kept ==> final(self).bitfield == old(self).bitfield,
            final(self).frames@ == old(self).frames@,
            final(self).choked == old(self).choked,
    {
        match frame {
            Message::Bitfield(bitfield) => {
                self.set_bitfield(bitfield);
                true
            },
            _ => false,
        }
    }

    /// The peer's bitfield, once announced.
    pub fn get_bitfield(&self) -> (res: Option<&Bitfield>)
        ensures
            match self.bitfield {
                Some(b) => res == Some(&b),
                None => res is None,
            },
    {
        self.bitfield.as_ref()
    }
}


/// A buffer that starts with a complete piece frame gives back that piece,
/// and only the bytes after the frame stay buffered.
pub proof fn law_buffered_piece_frame(
    index: u32,
    offset: u32,
    block: Seq<u8>,
    rest: Seq<u8>,
    res: Option<Message>,
    left: Seq<u8>,
)
    requires
        9 + block.len() <= MAX,
        frame_result(piece_frame(index, offset, block) + rest, res, left),
    ensures
        res matches Some(m) && m@ == (MessageView::Piece {
            piece_index: index as usize,
            offset,
            data: block,
        }),
        left == rest,
{
    let buffered = piece_frame(index, offset, block) + rest;
    assert(parse_outcome(buffered, 0) == (ParseOutcome::Frame {
        message: MessageView::Piece { piece_index: index as usize, offset, data: block },
        position: (13 + block.len()) as usize,
    })) by {
        crate::message::law_piece_frame_parses(index, offset, block, rest);
    }
    assert(buffered.skip(13 + block.len() as int) =~= rest);
}


/// Whenever a message comes out of the buffer, it was cut from the front:
/// a non-empty frame prefix leaves, and exactly the bytes after the frame
/// stay buffered, whatever kind of message it is.
pub proof fn law_parsed_frame_leaves(buffered: Seq<u8>, res: Option<Message>, rest: Seq<u8>)
    requires
        buffered.len() <= usize::MAX,
        frame_result(buffered, res, rest),
        res is Some,
    ensures
        exists|k: int|
            0 < k <= buffered.len() && rest == buffered.skip(k) && #[trigger] parse_outcome(
                buffered,
                0,
            ) == (ParseOutcome::Frame { message: res.unwrap()@, position: k as usize }),
        rest.len() < buffered.len(),
{
    reveal(parse_outcome);
    match parse_outcome(buffered, 0) {
        ParseOutcome::Frame { message, position } => {
            assert(0 < position <= buffered.len());
            assert(parse_outcome(buffered, 0) == (ParseOutcome::Frame {
                message: res.unwrap()@,
                position: position,
            }));
        },
        _ => {},
    }
}

/// A buffer holding one complete bitfield frame gives that bitfield and is
/// empty afterwards.
pub proof fn law_bitfield_buffer_empties(payload: Seq<u8>, res: Option<Message>, rest: Seq<u8>)
    requires
        1 + payload.len() <= MAX,
        frame_result(
            crate::wire::be_bytes((1 + payload.len()) as u32) + seq![5u8] + payload,
            res,
            rest,
        ),
    ensures
        res matches Some(m) && m@ == MessageView::Bitfield(payload),
        rest.len() == 0,
{
    crate::message::law_bitfield_frame_parses(payload);
}

} // verus!
