use vstd::prelude::*;

use crate::bitfield::Bitfield;
use crate::piece::{BlockData, BlockInfo};
use crate::wire::{be_bytes, be_value, decimal, push_decimal, u32_from_be, u32_to_be};

verus! {

#[verifier::external_type_specification]
#[verifier::external_body]
pub struct ExIoError(std::io::Error);

/// Calls `std::io::Error::new` with the kind `InvalidData` and `message` as
/// its payload. Nothing is claimed of the returned error: its kind and text
/// are not visible to the contracts.
#[verifier::external_body]
fn invalid_data_error(message: String) -> std::io::Error {
    std::io::Error::new(std::io::ErrorKind::InvalidData, message)
}

/// Why a frame could not be parsed.
#[derive(Debug)]
pub enum ParsingError {
    /// Not enough data is available to parse a message; holds the buffer length.
    Incomplete(usize),
    /// Invalid message encoding.
    Other(std::io::Error),
}

/// The largest frame length accepted.
pub const MAX: usize = 0x10000;

/// The largest block that is requested at once.
pub const BLOCK_MAX: usize = 0x4000;

/// The kinds of peer wire messages, in the order of their id byte.
#[derive(Debug, Clone, Copy, PartialEq, Eq, Structural)]
pub enum MessageId {
    Choke,
    Unchoke,
    Interested,
    NotInterested,
    Have,
    Bitfield,
    Request,
    Piece,
    Cancel,
}

/// The id byte of a message kind.
pub open spec fn id_byte_of(id: MessageId) -> u8 {
    match id {
        MessageId::Choke => 0,
        MessageId::Unchoke => 1,
        MessageId::Interested => 2,
        MessageId::NotInterested => 3,
        MessageId::Have => 4,
        MessageId::Bitfield => 5,
        MessageId::Request => 6,
        MessageId::Piece => 7,
        MessageId::Cancel => 8,
    }
}

/// The header length of a message kind.
pub open spec fn header_len_of(id: MessageId) -> u64 {
    match id {
        MessageId::Choke => 1,
        MessageId::Unchoke => 1,
        MessageId::Interested => 1,
        MessageId::NotInterested => 1,
        MessageId::Have => 9,
        MessageId::Bitfield => 5,
        MessageId::Request => 13,
        MessageId::Piece => 9,
        MessageId::Cancel => 13,
    }
}

impl MessageId {
    /// The header length of this message kind; fixed for each kind.
    pub fn header_len(&self) -> (res: u64)
        ensures
            res == header_len_of(*self),
    {
        match self {
            Self::Choke => 1,
            Self::Unchoke => 1,
            Self::Interested => 1,
            Self::NotInterested => 1,
            Self::Have => 4 + 1 + 4,
            Self::Bitfield => 4 + 1,
            Self::Request => 1 + 3 * 4,
            Self::Piece => 1 + 2 * 4,
            Self::Cancel => 1 + 3 * 4,
        }
    }

    /// The id byte sent on the wire for this kind.
    pub fn id_byte(&self) -> (res: u8)
        ensures
            res == id_byte_of(*self),
    {
        match self {
            Self::Choke => 0,
            Self::Unchoke => 1,
            Self::Interested => 2,
            Self::NotInterested => 3,
            Self::Have => 4,
            Self::Bitfield => 5,
            Self::Request => 6,
            Self::Piece => 7,
            Self::Cancel => 8,
        }
    }

    /// The kind with the given id byte, if any.
    pub fn from_byte(tag: u8) -> (res: Option<MessageId>)
        ensures
            tag <= 8 <==> res is Some,
            res matches Some(id) ==> id_byte_of(id) == tag,
    {
        match tag {
            0 => Some(MessageId::Choke),
            1 => Some(MessageId::Unchoke),
            2 => Some(MessageId::Interested),
            3 => Some(MessageId::NotInterested),
            4 => Some(MessageId::Have),
            5 => Some(MessageId::Bitfield),
            6 => Some(MessageId::Request),
            7 => Some(MessageId::Piece),
            8 => Some(MessageId::Cancel),
            _ => None,
        }
    }
}

/// The messages exchanged by peers.
#[derive(Debug, PartialEq)]
pub enum Message {
    Bitfield(Bitfield),
    Choke,
    Unchoke,
    Interested,
    NotInterested,
    Have { piece_index: usize },
    Request(BlockInfo),
    Piece { piece_index: usize, offset: u32, data: BlockData },
    Cancel(BlockInfo),
}

/// A message with its byte payloads seen as sequences.
pub enum MessageView {
    Bitfield(Seq<u8>),
    Choke,
    Unchoke,
    Interested,
    NotInterested,
    Have { piece_index: usize },
    Request(BlockInfo),
    Piece { piece_index: usize, offset: u32, data: Seq<u8> },
    Cancel(BlockInfo),
}

impl View for Message {
    type V = MessageView;

    open spec fn view(&self) -> MessageView {
        match self {
            Message::Bitfield(b) => MessageView::Bitfield(b@),
            Message::Choke => MessageView::Choke,
            Message::Unchoke => MessageView::Unchoke,
            Message::Interested => MessageView::Interested,
            Message::NotInterested => MessageView::NotInterested,
            Message::Have { piece_index } => MessageView::Have { piece_index: *piece_index },
            Message::Request(info) => MessageView::Request(*info),
            Message::Piece { piece_index, offset, data } => MessageView::Piece {
                piece_index: *piece_index,
                offset: *offset,
                data: data@,
            },
            Message::Cancel(info) => MessageView::Cancel(*info),
        }
    }
}

/// A read position over a byte buffer; the position may lie past the end.
pub struct Cursor<'a> {
    inner: &'a [u8],
    pos: usize,
}

impl<'a> Cursor<'a> {
    /// The bytes under the cursor.
    pub closed spec fn data(&self) -> Seq<u8> {
        self.inner@
    }

    /// The current position.
    pub closed spec fn pos(&self) -> usize {
        self.pos
    }

    /// A cursor at the start of `inner`.
    pub fn new(inner: &'a [u8]) -> (res: Self)
        ensures
            res.data() == inner@,
            res.data().len() <= usize::MAX,
            res.pos() == 0,
    {
        assert(inner@.len() == inner.len());
        Cursor { inner, pos: 0 }
    }

    /// The current position.
    pub fn position(&self) -> (res: usize)
        ensures
            res == self.pos(),
    {
        self.pos
    }

    /// Moves the cursor to `pos`.
    pub fn set_position(&mut self, pos: usize)
        ensures
            final(self).data() == old(self).data(),
            final(self).pos() == pos,
    {
        self.pos = pos;
    }

    /// The whole underlying buffer, whatever the position.
    pub fn get_ref(&self) -> (res: &'a [u8])
        ensures
            res@ == self.data(),
    {
        self.inner
    }

    /// Whether bytes remain after the position.
    pub fn has_remaining(&self) -> (res: bool)
        ensures
            res == (self.pos() < self.data().len()),
    {
        self.pos < self.inner.len()
    }

    /// Reads a big-endian `u32` at the position and moves past it.
    fn get_u32(&mut self) -> (res: u32)
        requires
            old(self).pos() + 4 <= old(self).data().len(),
        ensures
            final(self).data() == old(self).data(),
            final(self).pos() == old(self).pos() + 4,
            res == be_value(old(self).data().subrange(old(self).pos() as int, old(self).pos() + 4)),
    {
        let v = u32_from_be(self.inner, self.pos);
        assert(self.inner@.len() == self.inner.len());
        self.pos = self.pos + 4;
        v
    }

    /// Reads one byte at the position and moves past it.
    fn get_u8(&mut self) -> (res: u8)
        requires
            old(self).pos() < old(self).data().len(),
        ensures
            final(self).data() == old(self).data(),
            final(self).pos() == old(self).pos() + 1,
            res == old(self).data()[old(self).pos() as int],
    {
        let v = self.inner[self.pos];
        self.pos = self.pos + 1;
        v
    }

    /// Copies the `n` bytes at the position and moves past them.
    fn read_bytes(&mut self, n: usize) -> (res: Vec<u8>)
        requires
            old(self).pos() + n <= old(self).data().len(),
        ensures
            final(self).data() == old(self).data(),
            final(self).pos() == old(self).pos() + n,
            res@ == old(self).data().subrange(old(self).pos() as int, old(self).pos() + n),
    {
        assert(self.inner@.len() == self.inner.len());
        let out = vstd::slice::slice_to_vec(&self.inner[self.pos..self.pos + n]);
        self.pos = self.pos + n;
        out
    }
}

/// What parsing a frame at `pos` of `data` comes to.
pub enum ParseOutcome {
    /// No message: too little data for a length, a keep-alive, or nothing
    /// after the length; the cursor ends at `position`.
    NoFrame { position: usize },
    /// The frame is not complete; `buffered` is the buffer length.
    Incomplete { buffered: usize, position: usize },
    /// The announced length is larger than `MAX`.
    TooLarge { length: usize, position: usize },
    /// The id byte names no message kind.
    UnknownType { tag: u8, position: usize },
    /// A message was read and the cursor ends at `position`.
    Frame { message: MessageView, position: usize },
    /// Inputs on which parsing does not return: reads past the end of the
    /// buffer, a piece frame shorter than its header, or a message kind
    /// (have, request, cancel) that parsing does not implement.
    Aborts,
}

/// The frame parsing rule.
#[verifier::opaque]
pub open spec fn parse_outcome(data: Seq<u8>, pos: usize) -> ParseOutcome {
    let total = data.len();
    if total < 4 {
        ParseOutcome::NoFrame { position: pos }
    } else if pos + 4 > total {
        ParseOutcome::Aborts
    } else {
        let length = be_value(data.subrange(pos as int, pos + 4));
        let p1 = pos + 4;
        if length == 0 {
            ParseOutcome::NoFrame { position: p1 as usize }
        } else if total < 4 + length {
            ParseOutcome::Incomplete { buffered: total as usize, position: p1 as usize }
        } else if p1 >= total {
            ParseOutcome::NoFrame { position: p1 as usize }
        } else if length > MAX {
            ParseOutcome::TooLarge { length: length as usize, position: p1 as usize }
        } else {
            let tag = data[p1];
            let p2 = p1 + 1;
            if tag > 8 {
                ParseOutcome::UnknownType { tag, position: p2 as usize }
            } else if tag == 0 {
                ParseOutcome::Frame { message: MessageView::Choke, position: p2 as usize }
            } else if tag == 1 {
                ParseOutcome::Frame { message: MessageView::Unchoke, position: p2 as usize }
            } else if tag == 2 {
                ParseOutcome::Frame { message: MessageView::Interested, position: p2 as usize }
            } else if tag == 3 {
                ParseOutcome::Frame { message: MessageView::NotInterested, position: p2 as usize }
            } else if tag == 5 {
                ParseOutcome::Frame {
                    message: MessageView::Bitfield(data.subrange(p2, total as int)),
                    position: total as usize,
                }
            } else if tag == 7 {
                if length < 9 || p2 + 8 + (length - 9) > total {
                    ParseOutcome::Aborts
                } else {
                    ParseOutcome::Frame {
                        message: MessageView::Piece {
                            piece_index: be_value(data.subrange(p2, p2 + 4)) as usize,
                            offset: be_value(data.subrange(p2 + 4, p2 + 8)) as u32,
                            data: data.subrange(p2 + 8, p2 + 8 + (length - 9)),
                        },
                        position: (p2 + 8 + (length - 9)) as usize,
                    }
                }
            } else {
                ParseOutcome::Aborts
            }
        }
    }
}

/// The position at which the cursor ends, for each outcome that returns.
pub open spec fn outcome_position(outcome: ParseOutcome) -> usize {
    match outcome {
        ParseOutcome::NoFrame { position } => position,
        ParseOutcome::Incomplete { position, .. } => position,
        ParseOutcome::TooLarge { position, .. } => position,
        ParseOutcome::UnknownType { position, .. } => position,
        ParseOutcome::Frame { position, .. } => position,
        ParseOutcome::Aborts => 0,
    }
}

/// Whether a parse result is the one the rule prescribes.
pub open spec fn parse_result_matches(
    outcome: ParseOutcome,
    res: Result<Option<Message>, ParsingError>,
) -> bool {
    match outcome {
        ParseOutcome::NoFrame { .. } => res matches Ok(None),
        ParseOutcome::Incomplete { buffered, .. } => res matches Err(ParsingError::Incomplete(n))
            && n == buffered,
        ParseOutcome::TooLarge { .. } => res matches Err(ParsingError::Other(_)),
        ParseOutcome::UnknownType { .. } => res matches Err(ParsingError::Other(_)),
        ParseOutcome::Frame { message, .. } => res matches Ok(Some(m)) && m@ == message,
        ParseOutcome::Aborts => false,
    }
}

/// The text of the error for a frame whose length is too large.
pub fn too_large_message(length: usize) -> (res: String)
    ensures
        res@ == "Frame of length "@ + decimal(length as nat) + " is too large."@,
{
    let mut text = String::new();
    text.append("Frame of length ");
    push_decimal(&mut text, length as u64);
    text.append(" is too large.");
    text
}

/// The text of the error for an unknown message id.
pub fn unknown_type_message(tag: u8) -> (res: String)
    ensures
        res@ == "Unknown message type "@ + decimal(tag as nat) + "."@,
{
    let mut text = String::new();
    text.append("Unknown message type ");
    push_decimal(&mut text, tag as u64);
    text.append(".");
    text
}

impl Message {
    /// Whether `parse` would not return on this cursor (see `ParseOutcome::Aborts`).
    pub fn parse_aborts(src: &Cursor) -> (res: bool)
        ensures
            res == (parse_outcome(src.data(), src.pos()) is Aborts),
    {
        reveal(parse_outcome);
        let total = src.get_ref().len();
        let pos = src.position();
        if total < 4 {
            return false;
        }
        if pos > total - 4 {
            return true;
        }
        let length = u32_from_be(src.get_ref(), pos) as usize;
        let p1 = pos + 4;
        if length == 0 || (total as u64) < 4 + length as u64 || p1 >= total || length > MAX {
            return false;
        }
        let tag = src.get_ref()[p1];
        let p2 = p1 + 1;
        if tag > 8 || tag == 0 || tag == 1 || tag == 2 || tag == 3 || tag == 5 {
            false
        } else if tag == 7 {
            length < 9 || length - 1 > total - p2
        } else {
            true
        }
    }

    /// Parses one frame at the cursor: a 4-byte big-endian length, then the
    /// id byte and the payload.
    pub fn parse(src: &mut Cursor) -> (res: Result<Option<Message>, ParsingError>)
        requires
            !(parse_outcome(old(src).data(), old(src).pos()) is Aborts),
        ensures
            final(src).data() == old(src).data(),
            final(src).pos() == outcome_position(parse_outcome(old(src).data(), old(src).pos())),
            parse_result_matches(parse_outcome(old(src).data(), old(src).pos()), res),
    {
        reveal(parse_outcome);
        if src.get_ref().len() < 4 {
            return Ok(None);
        }
        let length = src.get_u32() as usize;
        if length == 0 {
            return Ok(None);
        }
        if (src.get_ref().len() as u64) < 4 + length as u64 {
            return Err(ParsingError::Incomplete(src.get_ref().len()));
        }
        if !src.has_remaining() {
            return Ok(None);
        }
        if length > MAX {
            return Err(ParsingError::Other(invalid_data_error(too_large_message(length))));
        }
        let tag = src.get_u8();
        let message_id = match MessageId::from_byte(tag) {
            Some(id) => id,
            None => {
                return Err(ParsingError::Other(invalid_data_error(unknown_type_message(tag))));
            },
        };
        let message = match message_id {
            MessageId::Choke => Message::Choke,
            MessageId::Unchoke => Message::Unchoke,
            MessageId::Interested => Message::Interested,
            MessageId::NotInterested => Message::NotInterested,
            MessageId::Bitfield => {
                let rest = src.get_ref().len() - src.position();
                let data = src.read_bytes(rest);
                Message::Bitfield(Bitfield::from_payload(data))
            },
            MessageId::Piece => {
                let piece_index = src.get_u32() as usize;
                let offset = src.get_u32();
                let block = src.read_bytes(length - 4 - 4 - 1);
                Message::Piece { piece_index, offset, data: BlockData::from(block) }
            },
            _ => {
                proof {
                    assert(false);
                }
                Message::Choke
            },
        };
        Ok(Some(message))
    }
}

/// A request for a block, held as the twelve big-endian bytes sent on the
/// wire: piece index, offset in the piece, length.
pub struct Request {
    bytes: [u8; 12],
}

impl View for Request {
    type V = Seq<u8>;

    closed spec fn view(&self) -> Seq<u8> {
        self.bytes@
    }
}

impl Request {
    /// A request for `length` bytes at `begin` of piece `index`.
    pub fn new(index: u32, begin: u32, length: u32) -> (res: Self)
        ensures
            res@ == be_bytes(index) + be_bytes(begin) + be_bytes(length),
    {
        let i = u32_to_be(index);
        let b = u32_to_be(begin);
        let l = u32_to_be(length);
        let bytes = [i[0], i[1], i[2], i[3], b[0], b[1], b[2], b[3], l[0], l[1], l[2], l[3]];
        assert(bytes@ =~= be_bytes(index) + be_bytes(begin) + be_bytes(length));
        Self { bytes }
    }

    /// The piece index.
    pub fn index(&self) -> (res: u32)
        ensures
            res == be_value(self@.subrange(0, 4)),
    {
        u32_from_be(&self.bytes, 0)
    }

    /// The offset in the piece.
    pub fn begin(&self) -> (res: u32)
        ensures
            res == be_value(self@.subrange(4, 8)),
    {
        u32_from_be(&self.bytes, 4)
    }

    /// The requested length.
    pub fn length(&self) -> (res: u32)
        ensures
            res == be_value(self@.subrange(8, 12)),
    {
        u32_from_be(&self.bytes, 8)
    }

    /// The twelve wire bytes, to be read or overwritten in place.
    pub fn as_bytes_mut(&mut self) -> (res: &mut [u8])
        ensures
            res@ == old(self)@,
            final(res)@ == final(self)@,
    {
        &mut self.bytes
    }

    /// A copy of the twelve wire bytes.
    pub fn as_bytes(&self) -> (res: [u8; 12])
        ensures
            res@ == self@,
    {
        self.bytes
    }

    /// A request read from its twelve wire bytes.
    pub fn from_bytes(bytes: [u8; 12]) -> (res: Self)
        ensures
            res@ == bytes@,
    {
        Request { bytes }
    }
}

/// A request reads back the index, offset and length it was made with.
pub proof fn law_request_roundtrip(index: u32, begin: u32, length: u32, wire: Seq<u8>)
    requires
        wire == be_bytes(index) + be_bytes(begin) + be_bytes(length),
    ensures
        wire.len() == 12,
        be_value(wire.subrange(0, 4)) == index,
        be_value(wire.subrange(4, 8)) == begin,
        be_value(wire.subrange(8, 12)) == length,
{
    crate::wire::law_be_roundtrip(index);
    crate::wire::law_be_roundtrip(begin);
    crate::wire::law_be_roundtrip(length);
    assert(wire.subrange(0, 4) =~= be_bytes(index));
    assert(wire.subrange(4, 8) =~= be_bytes(begin));
    assert(wire.subrange(8, 12) =~= be_bytes(length));
}


/// The wire bytes of a piece message: length, id 7, piece index, offset and
/// the block.
pub open spec fn piece_frame(index: u32, offset: u32, block: Seq<u8>) -> Seq<u8> {
    be_bytes((9 + block.len()) as u32) + seq![7u8] + be_bytes(index) + be_bytes(offset) + block
}

/// A complete piece frame, whatever follows it, parses into its piece index,
/// offset and block, and the cursor ends just past the frame.
pub proof fn law_piece_frame_parses(index: u32, offset: u32, block: Seq<u8>, rest: Seq<u8>)
    requires
        9 + block.len() <= MAX,
    ensures
        parse_outcome(piece_frame(index, offset, block) + rest, 0) == (ParseOutcome::Frame {
            message: MessageView::Piece { piece_index: index as usize, offset, data: block },
            position: (13 + block.len()) as usize,
        }),
{
    reveal(parse_outcome);
    let n = block.len();
    let d = piece_frame(index, offset, block) + rest;
    crate::wire::law_be_roundtrip((9 + n) as u32);
    crate::wire::law_be_roundtrip(index);
    crate::wire::law_be_roundtrip(offset);
    assert(d.subrange(0, 4) =~= be_bytes((9 + n) as u32));
    assert(d.subrange(5, 9) =~= be_bytes(index));
    assert(d.subrange(9, 13) =~= be_bytes(offset));
    assert(d.subrange(13, 13 + n as int) =~= block);
    assert(d[4] == 7u8);
}

/// A complete piece frame parses into its own piece index, offset and block
/// wherever the cursor stands: with any bytes before it and any after it,
/// parsing at its first byte gives that piece and ends just past the frame.
pub proof fn law_piece_frame_parses_at(
    before: Seq<u8>,
    index: u32,
    offset: u32,
    block: Seq<u8>,
    after: Seq<u8>,
)
    requires
        9 + block.len() <= MAX,
        before.len() + 13 + block.len() + after.len() <= usize::MAX,
    ensures
        parse_outcome(before + piece_frame(index, offset, block) + after, before.len() as usize) == (
        ParseOutcome::Frame {
            message: MessageView::Piece { piece_index: index as usize, offset, data: block },
            position: (before.len() + 13 + block.len()) as usize,
        }),
{
    reveal(parse_outcome);
    let n = block.len();
    let p = before.len() as int;
    let d = before + piece_frame(index, offset, block) + after;
    crate::wire::law_be_roundtrip((9 + n) as u32);
    crate::wire::law_be_roundtrip(index);
    crate::wire::law_be_roundtrip(offset);
    assert(d.subrange(p, p + 4) =~= be_bytes((9 + n) as u32));
    assert(d.subrange(p + 5, p + 9) =~= be_bytes(index));
    assert(d.subrange(p + 9, p + 13) =~= be_bytes(offset));
    assert(d.subrange(p + 13, p + 13 + n as int) =~= block);
    assert(d[p + 4] == 7u8);
}

/// A frame of length one with id byte 0 to 3 parses into choke, unchoke,
/// interested or not-interested wherever the cursor stands at its first
/// byte, and the cursor ends just past it.
pub proof fn law_simple_frame_parses_at(before: Seq<u8>, id: u8, after: Seq<u8>)
    requires
        id <= 3,
        before.len() + 5 + after.len() <= usize::MAX,
    ensures
        parse_outcome(before + be_bytes(1) + seq![id] + after, before.len() as usize) == (
        ParseOutcome::Frame { message: simple_message(id), position: (before.len() + 5) as usize }),
{
    reveal(parse_outcome);
    let p = before.len() as int;
    let d = before + be_bytes(1) + seq![id] + after;
    crate::wire::law_be_roundtrip(1);
    assert(d.subrange(p, p + 4) =~= be_bytes(1));
    assert(d[p + 4] == id);
}

/// A piece frame cut short after its length field parses as incomplete,
/// reporting how many bytes are buffered.
pub proof fn law_truncated_frame_incomplete(index: u32, offset: u32, block: Seq<u8>, cut: int)
    requires
        9 + block.len() <= MAX,
        4 <= cut < 13 + block.len(),
    ensures
        parse_outcome(piece_frame(index, offset, block).take(cut), 0) == (ParseOutcome::Incomplete {
            buffered: cut as usize,
            position: 4,
        }),
{
    reveal(parse_outcome);
    let n = block.len();
    let d = piece_frame(index, offset, block).take(cut);
    crate::wire::law_be_roundtrip((9 + n) as u32);
    assert(d.subrange(0, 4) =~= be_bytes((9 + n) as u32));
}

/// A frame of length zero is a keep-alive: no message, and the cursor moves
/// past the length.
pub proof fn law_keep_alive(rest: Seq<u8>)
    ensures
        parse_outcome(be_bytes(0) + rest, 0) == (ParseOutcome::NoFrame { position: 4 }),
{
    reveal(parse_outcome);
    crate::wire::law_be_roundtrip(0);
    assert((be_bytes(0) + rest).subrange(0, 4) =~= be_bytes(0));
}

/// The message a frame of length one with this id byte carries.
pub open spec fn simple_message(id: u8) -> MessageView {
    if id == 0 {
        MessageView::Choke
    } else if id == 1 {
        MessageView::Unchoke
    } else if id == 2 {
        MessageView::Interested
    } else {
        MessageView::NotInterested
    }
}

/// A frame of length one with id byte 0 to 3 parses into choke, unchoke,
/// interested or not-interested, whatever follows it.
pub proof fn law_simple_frame_parses(id: u8, rest: Seq<u8>)
    requires
        id <= 3,
    ensures
        parse_outcome(be_bytes(1) + seq![id] + rest, 0) == (ParseOutcome::Frame {
            message: simple_message(id),
            position: 5,
        }),
{
    reveal(parse_outcome);
    crate::wire::law_be_roundtrip(1);
    let d = be_bytes(1) + seq![id] + rest;
    assert(d.subrange(0, 4) =~= be_bytes(1));
    assert(d[4] == id);
}

/// A bitfield frame carries every byte after its id byte, and the cursor
/// ends at the end of the buffer.
pub proof fn law_bitfield_frame_parses(payload: Seq<u8>)
    requires
        1 + payload.len() <= MAX,
    ensures
        parse_outcome(be_bytes((1 + payload.len()) as u32) + seq![5u8] + payload, 0) == (
        ParseOutcome::Frame {
            message: MessageView::Bitfield(payload),
            position: (5 + payload.len()) as usize,
        }),
{
    reveal(parse_outcome);
    let n = payload.len();
    crate::wire::law_be_roundtrip((1 + n) as u32);
    let d = be_bytes((1 + n) as u32) + seq![5u8] + payload;
    assert(d.subrange(0, 4) =~= be_bytes((1 + n) as u32));
    assert(d.subrange(5, d.len() as int) =~= payload);
    assert(d[4] == 5u8);
}

} // verus!
