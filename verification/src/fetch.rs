use vstd::prelude::*;

use crate::client::{
    piece_hash_matches, piece_parcer, piece_wrapper, plan_defined, planned_block, request_frame,
    sha1_of, FooError, RequestBlock,
};
use crate::message::{Message, MessageView};
use crate::worker::{copy_block, piece_size, piece_size_defined, piece_size_of, splice};

verus! {

/// The download of one requested piece from a peer that has it: request the
/// first five blocks once unchoked, then one more per block received, and
/// check the piece's hash once every block arrived.
pub struct PieceDownload {
    /// The piece being downloaded.
    pub index: usize,
    /// Its block plan.
    pub blocks: Vec<RequestBlock>,
    /// How many blocks have been requested.
    pub count: usize,
    /// How many blocks have arrived.
    pub received: usize,
    /// The piece's bytes, filled as blocks arrive.
    pub all_blocks: Vec<u8>,
    /// The expected digest of each piece.
    pub hashes: Vec<[u8; 20]>,
}

/// What a frame leads to: requests to send, and, once every block arrived,
/// either the checked piece or the failure.
pub struct PieceStep {
    pub requests: Vec<Vec<u8>>,
    pub completion: Option<Result<Vec<u8>, FooError>>,
}

/// Inputs on which `PieceDownload::on_frame` does not return: message kinds
/// the download does not handle, a block that does not fit in the piece, a
/// block counter at its limit, or a complete piece with no expected digest.
pub open spec fn fetch_frame_aborts(d: PieceDownload, m: MessageView) -> bool {
    match m {
        MessageView::Choke => false,
        MessageView::Unchoke => false,
        MessageView::Piece { offset, data, .. } => {
            ||| offset + data.len() > d.all_blocks@.len()
            ||| d.received == usize::MAX
            ||| (d.received + 1 == d.blocks@.len() && d.index >= d.hashes@.len())
        },
        _ => true,
    }
}

/// The frames requesting the first `n` blocks.
pub open spec fn first_requests(blocks: Seq<RequestBlock>, frames: Seq<Vec<u8>>, n: int) -> bool {
    &&& frames.len() == n
    &&& forall|k: int| 0 <= k < n ==> #[trigger] frames[k]@ == request_frame(blocks[k])
}

/// How a frame changes the download.
pub open spec fn fetch_transition(
    old: PieceDownload,
    new: PieceDownload,
    m: MessageView,
    step: PieceStep,
) -> bool {
    &&& new.index == old.index
    &&& new.blocks@ == old.blocks@
    &&& new.hashes@ == old.hashes@
    &&& match m {
        MessageView::Choke => {
            &&& new.count == old.count
            &&& new.received == old.received
            &&& new.all_blocks@ == old.all_blocks@
            &&& step.requests@.len() == 0
            &&& step.completion is None
        },
        MessageView::Unchoke => {
            let n = if old.blocks@.len() < 5 {
                old.blocks@.len() as int
            } else {
                5
            };
            &&& new.count == old.count
            &&& new.received == old.received
            &&& new.all_blocks@ == old.all_blocks@
            &&& first_requests(old.blocks@, step.requests@, n)
            &&& step.completion is None
        },
        MessageView::Piece { offset, data, .. } => {
            let filled = splice(old.all_blocks@, offset as int, data);
            &&& new.received == old.received + 1
            &&& if old.count < old.blocks@.len() {
                &&& new.count == old.count + 1
                &&& step.requests@.len() == 1
                &&& step.requests@[0]@ == request_frame(old.blocks@[old.count as int])
            } else {
                &&& new.count == old.count
                &&& step.requests@.len() == 0
            }
            &&& if new.received == old.blocks@.len() {
                if sha1_of(filled) == old.hashes@[old.index as int]@ {
                    &&& step.completion matches Some(Ok(piece)) && piece@ == filled
                    &&& new.all_blocks@.len() == 0
                } else {
                    &&& step.completion matches Some(Err(FooError::InvalidHash))
                    &&& new.all_blocks@ == filled
                }
            } else {
                &&& step.completion is None
                &&& new.all_blocks@ == filled
            }
        },
        _ => false,
    }
}

impl PieceDownload {
    /// Plans the download of piece `index`.
    pub fn new(index: usize, torrent_length: usize, plength: usize, hashes: Vec<[u8; 20]>) -> (res:
        Self)
        requires
            plan_defined(hashes@.len() as usize, plength),
            piece_size_defined(index, hashes@.len() as usize, plength, torrent_length),
        ensures
            res.index == index,
            res.blocks@.len() == crate::client::blocks_count(plength as int),
            forall|i: int|
                0 <= i < res.blocks@.len() ==> #[trigger] res.blocks@[i] == planned_block(
                    index,
                    torrent_length,
                    hashes@.len() as usize,
                    plength,
                    i,
                ),
            res.count == 5,
            res.received == 0,
            res.all_blocks@ == Seq::new(
                piece_size_of(index, hashes@.len() as usize, plength, torrent_length) as nat,
                |i: int| 0u8,
            ),
            res.hashes@ == hashes@,
    {
        let pieces_count = hashes.len();
        let blocks = piece_parcer(index, torrent_length, pieces_count, plength);
        let size = piece_size(index, pieces_count, plength, torrent_length);
        let all_blocks = vec![0u8; size];
        assert(all_blocks@ =~= Seq::new(size as nat, |i: int| 0u8));
        PieceDownload { index, blocks, count: 5, received: 0, all_blocks, hashes }
    }

    /// Whether `on_frame` would not return (see `fetch_frame_aborts`).
    pub fn frame_aborts(&self, frame: &Message) -> (res: bool)
        ensures
            res == fetch_frame_aborts(*self, frame@),
    {
        match frame {
            Message::Choke => false,
            Message::Unchoke => false,
            Message::Piece { offset, data, .. } => {
                let n = self.all_blocks.len();
                let too_long = *offset as usize > n || data.len() > n - *offset as usize;
                too_long || self.received == usize::MAX || (self.received + 1 == self.blocks.len()
                    && self.index >= self.hashes.len())
            },
            _ => true,
        }
    }

    /// Applies a frame read from the peer.
    pub fn on_frame(&mut self, frame: Message) -> (step: PieceStep)
        requires
            !fetch_frame_aborts(*old(self), frame@),
        ensures
            fetch_transition(*old(self), *final(self), frame@, step),
    {
        match frame {
            Message::Choke => PieceStep { requests: Vec::new(), completion: None },
            Message::Unchoke => {
                let n = if self.blocks.len() < 5 {
                    self.blocks.len()
                } else {
                    5
                };
                let mut requests: Vec<Vec<u8>> = Vec::new();
                let mut k: usize = 0;
                while k < n
                    invariant
                        n <= self.blocks@.len(),
                        k <= n,
                        requests@.len() == k,
                        forall|j: int|
                            0 <= j < k ==> #[trigger] requests@[j]@ == request_frame(
                                self.blocks@[j],
                            ),
                    decreases n - k,
                {
                    requests.push(piece_wrapper(&self.blocks[k]));
                    k = k + 1;
                }
                PieceStep { requests, completion: None }
            },
            Message::Piece { offset, data, .. } => {
                self.received = self.received + 1;
                copy_block(&mut self.all_blocks, offset as usize, data.as_slice());
                let mut requests: Vec<Vec<u8>> = Vec::new();
                if self.count < self.blocks.len() {
                    self.count = self.count + 1;
                    requests.push(piece_wrapper(&self.blocks[self.count - 1]));
                }
                let completion = if self.received == self.blocks.len() {
                    if piece_hash_matches(self.all_blocks.as_slice(), &self.hashes[self.index]) {
                        let mut piece: Vec<u8> = Vec::new();
                        std::mem::swap(&mut piece, &mut self.all_blocks);
                        Some(Ok(piece))
                    } else {
                        Some(Err(FooError::InvalidHash))
                    }
                } else {
                    None
                };
                PieceStep { requests, completion }
            },
            _ => {
                proof {
                    assert(false);
                }
                PieceStep { requests: Vec::new(), completion: None }
            },
        }
    }
}


/// The request counter stays within the plan, or at the five blocks asked
/// for first.
pub open spec fn fetch_counters_ok(d: PieceDownload) -> bool {
    d.count <= d.blocks@.len() || d.count == 5
}

/// Every frame keeps the request counter bounded.
pub proof fn law_fetch_keeps_counters(
    old: PieceDownload,
    new: PieceDownload,
    m: MessageView,
    step: PieceStep,
)
    requires
        fetch_counters_ok(old),
        fetch_transition(old, new, m, step),
    ensures
        fetch_counters_ok(new),
{
}


/// A piece is handed over only once as many blocks arrived as the plan has,
/// and only when it hashes to the piece's expected digest; a complete piece
/// that does not ends the download with `InvalidHash`.
pub proof fn law_fetch_delivers_checked_pieces(
    old: PieceDownload,
    new: PieceDownload,
    m: MessageView,
    step: PieceStep,
)
    requires
        fetch_transition(old, new, m, step),
    ensures
        step.completion matches Some(Ok(piece)) ==> sha1_of(piece@) == old.hashes@[old.index as int]@
            && new.received == old.blocks@.len(),
        step.completion matches Some(Err(e)) ==> e is InvalidHash && new.received
            == old.blocks@.len() && sha1_of(new.all_blocks@) != old.hashes@[old.index as int]@,
{
}

} // verus!
