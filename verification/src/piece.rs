use vstd::prelude::*;

use crate::wire::{decimal, push_decimal};

verus! {

/// The default length of a block: 16 KiB.
pub const BLOCK_LEN: u32 = 0x4000;

/// The index of a piece within a torrent.
pub type PieceIndex = usize;

/// Where a block sits: its piece, its offset in the piece and its length.
#[derive(Clone, Copy, Debug, PartialEq, Eq, Structural, PartialOrd, Ord, Hash)]
pub struct BlockInfo {
    /// The index of the piece of which this is a block.
    pub piece_index: PieceIndex,
    /// The zero-based byte offset into the piece.
    pub offset: u32,
    /// The block's length in bytes; at most 16 KiB.
    pub len: u32,
}

/// The text `BlockInfo` is displayed as.
pub open spec fn block_info_text(info: BlockInfo) -> Seq<char> {
    "(piece: "@ + decimal(info.piece_index as nat) + " offset: "@ + decimal(info.offset as nat)
        + " len: "@ + decimal(info.len as nat) + ")"@
}

impl BlockInfo {
    /// The index of the block within its piece, for blocks of the default
    /// length (the last block of a piece may be shorter).
    pub fn index_in_piece(&self) -> (res: usize)
        requires
            0 < self.len <= BLOCK_LEN,
        ensures
            res == self.offset / BLOCK_LEN,
    {
        (self.offset / BLOCK_LEN) as usize
    }

    /// The text `(piece: P offset: O len: L)`.
    pub fn to_string(&self) -> (res: String)
        ensures
            res@ == block_info_text(*self),
    {
        let mut out = String::new();
        out.append("(piece: ");
        push_decimal(&mut out, self.piece_index as u64);
        out.append(" offset: ");
        push_decimal(&mut out, self.offset as u64);
        out.append(" len: ");
        push_decimal(&mut out, self.len as u64);
        out.append(")");
        out
    }
}

/// The raw bytes of a block.
#[derive(Debug, PartialEq)]
pub struct BlockData {
    data: Vec<u8>,
}

impl View for BlockData {
    type V = Seq<u8>;

    closed spec fn view(&self) -> Seq<u8> {
        self.data@
    }
}

impl BlockData {
    /// The bytes, as a slice.
    pub fn as_slice(&self) -> (res: &[u8])
        ensures
            res@ == self@,
    {
        self.data.as_slice()
    }

    /// The number of bytes.
    pub fn len(&self) -> (res: usize)
        ensures
            res == self@.len(),
    {
        self.data.len()
    }

    /// Takes the bytes back out.
    pub fn into_vec(self) -> (res: Vec<u8>)
        ensures
            res@ == self@,
    {
        self.data
    }
}

impl From<Vec<u8>> for BlockData {
    fn from(b: Vec<u8>) -> (res: Self)
        ensures
            res@ == b@,
    {
        BlockData { data: b }
    }
}

impl vstd::std_specs::convert::FromSpecImpl<Vec<u8>> for BlockData {
    open spec fn obeys_from_spec() -> bool {
        true
    }

    closed spec fn from_spec(b: Vec<u8>) -> Self {
        BlockData { data: b }
    }
}

/// A block of a piece together with its data.
#[derive(Debug)]
pub struct Block {
    /// The index of the piece of which this is a block.
    pub piece_index: PieceIndex,
    /// The zero-based byte offset into the piece.
    pub offset: u32,
    /// The actual raw data of the block.
    pub data: BlockData,
}

impl Block {
    /// Constructs a block from its metadata and data.
    pub fn new(info: BlockInfo, data: Vec<u8>) -> (res: Self)
        ensures
            res.piece_index == info.piece_index,
            res.offset == info.offset,
            res.data@ == data@,
    {
        Self { piece_index: info.piece_index, offset: info.offset, data: BlockData::from(data) }
    }

    /// The metadata of this block; the length is that of the data, cut to 32 bits.
    pub fn info(&self) -> (res: BlockInfo)
        ensures
            res.piece_index == self.piece_index,
            res.offset == self.offset,
            res.len == self.data@.len() as u32,
    {
        BlockInfo { piece_index: self.piece_index, offset: self.offset, len: self.data.len() as u32 }
    }
}

/// A block made from some metadata gives that metadata back whenever its data
/// has the announced length.
pub proof fn law_block_info_roundtrip(info: BlockInfo, data: Seq<u8>, block: Block)
    requires
        block.piece_index == info.piece_index,
        block.offset == info.offset,
        block.data@ == data,
        data.len() == info.len,
    ensures
        (BlockInfo {
            piece_index: block.piece_index,
            offset: block.offset,
            len: block.data@.len() as u32,
        }) == info,
{
}

} // verus!
