use vstd::prelude::*;

use std::collections::HashSet;

use crate::bitfield::{all_pieces, Bitfield};
use crate::client::{
    piece_hash_matches, piece_parcer, piece_wrapper, plan_defined, planned_block, request_frame,
    sha1_of, FooError, RequestBlock,
};
use crate::message::{Message, MessageView, MessageId};
use crate::wire::be_bytes;

verus! {

broadcast use vstd::std_specs::hash::group_hash_axioms;

/// Calls `rand::Rng::gen_range` on `rand::thread_rng()` over `0..len`. The
/// index is random: only its range is claimed.
#[verifier::external_body]
fn random_index(len: usize) -> (res: usize)
    requires
        len > 0,
    ensures
        res < len,
{
    rand::Rng::gen_range(&mut rand::thread_rng(), 0..len)
}

/// Where a session with one peer stands.
#[derive(Debug)]
pub enum PeerState {
    /// Connected, waiting for the peer's bitfield.
    Connected,
    /// The peer's bitfield arrived.
    Bitfield(Bitfield),
    /// Send up to `count` requests, from block `requested` on; `received`
    /// blocks have arrived.
    Download(usize, usize, usize),
    /// Tell the peer we are interested.
    Interested,
    /// The peer unchoked us: pick a piece.
    Ready,
    /// All blocks of the piece arrived; check it.
    Finished(usize),
    /// Waiting for blocks: `received`, `requested`.
    Awaiting(usize, usize),
}

/// What the session loop does next.
#[derive(Debug)]
pub enum WorkerAction {
    /// Nothing to send: read the next frame.
    ReadFrame,
    /// The state changed: step again before reading.
    Continue,
    /// Send this "interested" frame, then read the next frame.
    SendInterested(Vec<u8>),
    /// Send these request frames, then read the next frame.
    SendRequests(Vec<Vec<u8>>),
    /// The piece is complete and its hash checked: hand it over to be written.
    Deliver { piece_index: usize, data: Vec<u8> },
    /// The session ends with this error.
    Stop(FooError),
}

/// The wire bytes of an "interested" message.
pub open spec fn interested_frame_bytes() -> Seq<u8> {
    be_bytes(1) + seq![2u8]
}

/// Frames an "interested" message.
pub fn interested_frame() -> (res: Vec<u8>)
    ensures
        res@ == interested_frame_bytes(),
{
    let msg_len = MessageId::Interested.header_len();
    let len_slice = crate::wire::u32_to_be(msg_len as u32);
    let mut buffer: Vec<u8> = Vec::new();
    buffer.extend_from_slice(&len_slice);
    buffer.push(MessageId::Interested.id_byte());
    assert(buffer@ =~= interested_frame_bytes());
    buffer
}

/// The elements of `s` that are in `needed`, in order.
pub open spec fn keep_needed(s: Seq<usize>, needed: Set<usize>) -> Seq<usize>
    decreases s.len(),
{
    if s.len() == 0 {
        Seq::empty()
    } else {
        let prev = keep_needed(s.drop_last(), needed);
        if needed.contains(s.last()) {
            prev.push(s.last())
        } else {
            prev
        }
    }
}

/// The first position at or after `k` whose piece is still needed.
pub open spec fn first_needed_from(available: Seq<usize>, needed: Set<usize>, k: int) -> Option<int>
    decreases available.len() - k,
{
    if k < 0 || k >= available.len() {
        None
    } else if needed.contains(available[k]) {
        Some(k)
    } else {
        first_needed_from(available, needed, k + 1)
    }
}

/// A position found by the scan holds a needed piece and lies in range.
pub proof fn lemma_first_needed_from(available: Seq<usize>, needed: Set<usize>, k: int)
    ensures
        first_needed_from(available, needed, k) matches Some(i) ==> k <= i < available.len()
            && needed.contains(available[i]),
    decreases available.len() - k,
{
    if 0 <= k < available.len() && !needed.contains(available[k]) {
        lemma_first_needed_from(available, needed, k + 1);
    }
}

/// The piece chosen when the random pick is `pick`: the picked piece if it
/// is still needed, else the first available piece that is, else the piece
/// chosen before, if any.
pub open spec fn pick_choice(
    available: Seq<usize>,
    needed: Set<usize>,
    pindex: Option<usize>,
    pick: int,
) -> Option<usize> {
    if needed.contains(available[pick]) {
        Some(available[pick])
    } else {
        match first_needed_from(available, needed, 0) {
            Some(i) => Some(available[i]),
            None => pindex,
        }
    }
}

/// Whether the size of piece `index` can be computed: the last piece is the
/// torrent length minus all the pieces before it.
pub open spec fn piece_size_defined(
    index: usize,
    pieces_count: usize,
    plength: usize,
    torrent_length: usize,
) -> bool {
    &&& index < usize::MAX
    &&& index + 1 == pieces_count ==> {
        &&& plength * pieces_count <= usize::MAX
        &&& torrent_length <= plength * pieces_count
        &&& plength * pieces_count - torrent_length <= plength
    }
}

/// The size of piece `index`.
pub open spec fn piece_size_of(
    index: usize,
    pieces_count: usize,
    plength: usize,
    torrent_length: usize,
) -> int {
    if index + 1 == pieces_count {
        plength - (plength * pieces_count - torrent_length)
    } else {
        plength as int
    }
}

/// The size of piece `index`: `plength`, except for the last piece.
pub fn piece_size(index: usize, pieces_count: usize, plength: usize, torrent_length: usize) -> (res:
    usize)
    requires
        piece_size_defined(index, pieces_count, plength, torrent_length),
    ensures
        res == piece_size_of(index, pieces_count, plength, torrent_length),
{
    if index + 1 == pieces_count {
        plength - (plength * pieces_count - torrent_length)
    } else {
        plength
    }
}

/// `s` with the bytes from `at` on replaced by `data`.
pub open spec fn splice(s: Seq<u8>, at: int, data: Seq<u8>) -> Seq<u8> {
    s.subrange(0, at) + data + s.subrange(at + data.len(), s.len() as int)
}

/// Copies `data` into `dst` at `at`.
pub fn copy_block(dst: &mut Vec<u8>, at: usize, data: &[u8])
    requires
        at + data@.len() <= old(dst)@.len(),
    ensures
        final(dst)@ == splice(old(dst)@, at as int, data@),
{
    let n = data.len();
    let dlen = dst.len();
    let mut j: usize = 0;
    while j < n
        invariant
            n == data@.len(),
            dlen == dst@.len(),
            at + n <= dst@.len(),
            j <= n,
            dst@.len() == old(dst)@.len(),
            forall|k: int| 0 <= k < at ==> dst@[k] == old(dst)@[k],
            forall|k: int| at + n <= k < dst@.len() ==> dst@[k] == old(dst)@[k],
            forall|k: int| 0 <= k < j ==> dst@[at + k] == data@[k],
        decreases n - j,
    {
        dst.set(at + j, data[j]);
        j = j + 1;
    }
    assert(dst@ =~= splice(old(dst)@, at as int, data@));
}

/// A download session with one peer: pick a piece the peer has and we
/// need, request its blocks, collect them and check the piece's hash.
pub struct PeerWorker {
    pub state: PeerState,
    /// The needed pieces the peer announced.
    pub available: Vec<usize>,
    /// The piece being downloaded, once chosen.
    pub pindex: Option<usize>,
    /// The block plan of the chosen piece.
    pub blocks: Vec<RequestBlock>,
    pub piece_size: usize,
    /// The piece's bytes, filled as blocks arrive.
    pub all_blocks: Vec<u8>,
    pub plength: usize,
    pub torrent_length: usize,
    /// The expected digest of each piece.
    pub hashes: Vec<[u8; 20]>,
}

/// Whether choosing piece `index` lets the worker compute its plan and size.
pub open spec fn choice_defined(w: PeerWorker, index: usize) -> bool {
    &&& plan_defined(w.hashes@.len() as usize, w.plength)
    &&& piece_size_defined(index, w.hashes@.len() as usize, w.plength, w.torrent_length)
}

/// Whether the random pick `pick` leads to a piece whose plan or size cannot
/// be computed.
pub open spec fn pick_aborts(w: PeerWorker, needed: Set<usize>, pick: int) -> bool {
    match pick_choice(w.available@, needed, w.pindex, pick) {
        Some(index) => !choice_defined(w, index),
        None => false,
    }
}

/// Inputs on which `step` does not return: a bitfield too large to list,
/// picking from no available piece, choosing a piece whose plan or size
/// cannot be computed, or checking a piece with no expected digest.
pub open spec fn step_aborts(w: PeerWorker, needed: Set<usize>) -> bool {
    match w.state {
        PeerState::Bitfield(b) => b@.len() * 8 > usize::MAX,
        PeerState::Ready => w.available@.len() == 0 || exists|pick: int|
            0 <= pick < w.available@.len() && #[trigger] pick_aborts(w, needed, pick),
        PeerState::Finished(k) => k >= w.hashes@.len(),
        _ => false,
    }
}

/// Inputs on which `on_frame` does not return: message kinds the session
/// does not handle, a block that does not fit in the piece, or a block
/// counter at its limit.
pub open spec fn frame_aborts(w: PeerWorker, m: MessageView) -> bool {
    match m {
        MessageView::Bitfield(_) => false,
        MessageView::Choke => false,
        MessageView::Unchoke => false,
        MessageView::Piece { offset, data, .. } => {
            ||| offset + data.len() > w.all_blocks@.len()
            ||| w.state matches PeerState::Awaiting(received, _) && received == usize::MAX
        },
        _ => true,
    }
}

/// The state after a block arrives.
pub open spec fn state_after_block(state: PeerState, blocks_len: int, piece_index: usize) -> PeerState {
    match state {
        PeerState::Awaiting(received, requested) => {
            if requested < blocks_len {
                PeerState::Download(1, (received + 1) as usize, requested)
            } else if received + 1 == blocks_len {
                PeerState::Finished(piece_index)
            } else {
                PeerState::Awaiting((received + 1) as usize, requested)
            }
        },
        _ => state,
    }
}

/// The number of blocks sent from `requested` on, at most `count`.
pub open spec fn batch_len(blocks_len: int, requested: int, count: int) -> int {
    if requested >= blocks_len {
        0
    } else if blocks_len - requested < count {
        blocks_len - requested
    } else {
        count
    }
}

impl PeerWorker {
    /// A fresh session for a torrent.
    pub fn new(plength: usize, torrent_length: usize, hashes: Vec<[u8; 20]>) -> (res: Self)
        ensures
            res.state is Connected,
            res.available@.len() == 0,
            res.pindex is None,
            res.blocks@.len() == 0,
            res.piece_size == 0,
            res.all_blocks@.len() == 0,
            res.plength == plength,
            res.torrent_length == torrent_length,
            res.hashes@ == hashes@,
    {
        let pieces_count = hashes.len();
        PeerWorker {
            state: PeerState::Connected,
            available: Vec::new(),
            pindex: None,
            blocks: Vec::with_capacity(pieces_count),
            piece_size: 0,
            all_blocks: Vec::new(),
            plength,
            torrent_length,
            hashes,
        }
    }
}


/// The needed set after the pick `pick`.
pub open spec fn needed_after_pick(available: Seq<usize>, needed: Set<usize>, pick: int) -> Set<
    usize,
> {
    if needed.contains(available[pick]) {
        needed.remove(available[pick])
    } else {
        match first_needed_from(available, needed, 0) {
            Some(i) => needed.remove(available[i]),
            None => needed,
        }
    }
}

/// The available pieces after the pick `pick`: a piece found by the scan
/// leaves the list, a piece picked at random stays.
pub open spec fn available_after_pick(available: Seq<usize>, needed: Set<usize>, pick: int) -> Seq<
    usize,
> {
    if needed.contains(available[pick]) {
        available
    } else {
        match first_needed_from(available, needed, 0) {
            Some(i) => available.remove(i),
            None => available,
        }
    }
}

/// Fields that no step changes.
pub open spec fn same_torrent(old: PeerWorker, new: PeerWorker) -> bool {
    &&& new.plength == old.plength
    &&& new.torrent_length == old.torrent_length
    &&& new.hashes@ == old.hashes@
}

/// Every field but the state is unchanged.
pub open spec fn same_work(old: PeerWorker, new: PeerWorker) -> bool {
    &&& same_torrent(old, new)
    &&& new.available@ == old.available@
    &&& new.pindex == old.pindex
    &&& new.blocks@ == old.blocks@
    &&& new.piece_size == old.piece_size
    &&& new.all_blocks@ == old.all_blocks@
}

/// The bitfield step: keep the announced pieces that are needed; go on if
/// there are any, else stop.
pub open spec fn bitfield_transition(
    old: PeerWorker,
    new: PeerWorker,
    needed: Set<usize>,
    action: WorkerAction,
) -> bool {
    old.state matches PeerState::Bitfield(b) && {
        let wanted = keep_needed(all_pieces(b@), needed);
        &&& same_torrent(old, new)
        &&& new.pindex == old.pindex
        &&& new.blocks@ == old.blocks@
        &&& new.piece_size == old.piece_size
        &&& new.all_blocks@ == old.all_blocks@
        &&& if wanted.len() > 0 {
            &&& new.available@ == wanted
            &&& new.state is Interested
            &&& action is Continue
        } else {
            &&& new.available@ == old.available@
            &&& new.state == old.state
            &&& action matches WorkerAction::Stop(FooError::Empty)
        }
    }
}

/// The ready step for the random pick `pick`: choose a piece, plan its
/// blocks and start downloading; stop when there is nothing to choose.
pub open spec fn ready_transition(
    old: PeerWorker,
    new: PeerWorker,
    old_needed: Set<usize>,
    new_needed: Set<usize>,
    pick: int,
    action: WorkerAction,
) -> bool {
    let choice = pick_choice(old.available@, old_needed, old.pindex, pick);
    let pieces_count = old.hashes@.len() as usize;
    &&& same_torrent(old, new)
    &&& new_needed == needed_after_pick(old.available@, old_needed, pick)
    &&& new.available@ == available_after_pick(old.available@, old_needed, pick)
    &&& new.pindex == choice
    &&& match choice {
        Some(index) => {
            &&& new.blocks@.len() == crate::client::blocks_count(old.plength as int)
            &&& forall|i: int|
                0 <= i < new.blocks@.len() ==> #[trigger] new.blocks@[i] == planned_block(
                    index,
                    old.torrent_length,
                    pieces_count,
                    old.plength,
                    i,
                )
            &&& new.piece_size == piece_size_of(
                index,
                pieces_count,
                old.plength,
                old.torrent_length,
            )
            &&& new.all_blocks@ == Seq::new(new.piece_size as nat, |i: int| 0u8)
            &&& new.state == PeerState::Download(5, 0, 0)
            &&& action is Continue
        },
        None => {
            &&& new.state == old.state
            &&& new.blocks@ == old.blocks@
            &&& new.piece_size == old.piece_size
            &&& new.all_blocks@ == old.all_blocks@
            &&& action matches WorkerAction::Stop(FooError::Empty)
        },
    }
}

/// The download step: request up to `count` blocks from `requested` on and
/// wait for them.
pub open spec fn download_transition(old: PeerWorker, new: PeerWorker, action: WorkerAction) -> bool {
    old.state matches PeerState::Download(count, received, requested) && {
        let sent = batch_len(old.blocks@.len() as int, requested as int, count as int);
        &&& same_work(old, new)
        &&& new.state == PeerState::Awaiting(received, (requested + sent) as usize)
        &&& action matches WorkerAction::SendRequests(frames) && frames@.len() == sent && forall|
            k: int,
        |
            0 <= k < sent ==> #[trigger] frames@[k]@ == request_frame(
                old.blocks@[requested + k],
            )
    }
}

/// The finishing step: deliver the piece if it hashes to its expected
/// digest, else stop.
pub open spec fn finished_transition(old: PeerWorker, new: PeerWorker, action: WorkerAction) -> bool {
    old.state matches PeerState::Finished(k) && {
        &&& same_torrent(old, new)
        &&& new.available@ == old.available@
        &&& new.pindex == old.pindex
        &&& new.blocks@ == old.blocks@
        &&& new.piece_size == old.piece_size
        &&& new.state == old.state
        &&& if sha1_of(old.all_blocks@) == old.hashes@[k as int]@ {
            &&& action matches WorkerAction::Deliver { piece_index, data } && piece_index == k
                && data@ == old.all_blocks@
            &&& new.all_blocks@.len() == 0
        } else {
            &&& action matches WorkerAction::Stop(FooError::InvalidHash)
            &&& new.all_blocks@ == old.all_blocks@
        }
    }
}

/// One step of the session, by state.
pub open spec fn step_transition(
    old: PeerWorker,
    new: PeerWorker,
    old_needed: Set<usize>,
    new_needed: Set<usize>,
    action: WorkerAction,
) -> bool {
    match old.state {
        PeerState::Connected => same_work(old, new) && new.state == old.state && new_needed
            == old_needed && action is ReadFrame,
        PeerState::Awaiting(_, _) => same_work(old, new) && new.state == old.state && new_needed
            == old_needed && action is ReadFrame,
        PeerState::Interested => {
            &&& same_work(old, new)
            &&& new.state == old.state
            &&& new_needed == old_needed
            &&& action matches WorkerAction::SendInterested(frame) && frame@
                == interested_frame_bytes()
        },
        PeerState::Bitfield(_) => new_needed == old_needed && bitfield_transition(
            old,
            new,
            old_needed,
            action,
        ),
        PeerState::Ready => exists|pick: int|
            0 <= pick < old.available@.len() && #[trigger] ready_transition(
                old,
                new,
                old_needed,
                new_needed,
                pick,
                action,
            ),
        PeerState::Download(_, _, _) => new_needed == old_needed && download_transition(
            old,
            new,
            action,
        ),
        PeerState::Finished(_) => new_needed == old_needed && finished_transition(old, new, action),
    }
}

/// The first position whose piece is still needed.
pub fn first_needed(available: &Vec<usize>, needed: &HashSet<usize>) -> (res: Option<usize>)
    ensures
        match first_needed_from(available@, needed@, 0) {
            Some(i) => res == Some(i as usize),
            None => res is None,
        },
{
    let len = available.len();
    let mut i: usize = 0;
    while i < len
        invariant
            len == available@.len(),
            i <= len,
            first_needed_from(available@, needed@, 0) == first_needed_from(
                available@,
                needed@,
                i as int,
            ),
        decreases len - i,
    {
        if needed.contains(&available[i]) {
            return Some(i);
        }
        i = i + 1;
    }
    None
}

/// The needed pieces among `pieces`, in order.
fn filter_needed(pieces: &Vec<usize>, needed: &HashSet<usize>) -> (res: Vec<usize>)
    ensures
        res@ == keep_needed(pieces@, needed@),
{
    let len = pieces.len();
    let mut res: Vec<usize> = Vec::new();
    let mut i: usize = 0;
    while i < len
        invariant
            len == pieces@.len(),
            i <= len,
            res@ == keep_needed(pieces@.take(i as int), needed@),
        decreases len - i,
    {
        assert(pieces@.take(i + 1).drop_last() =~= pieces@.take(i as int));
        let piece = pieces[i];
        if needed.contains(&piece) {
            res.push(piece);
        }
        i = i + 1;
    }
    assert(pieces@.take(len as int) =~= pieces@);
    res
}

/// Whether the block plan and the size of piece `index` can be computed.
pub fn plan_and_size_defined(
    index: usize,
    pieces_count: usize,
    plength: usize,
    torrent_length: usize,
) -> (res: bool)
    ensures
        res == (plan_defined(pieces_count, plength) && piece_size_defined(
            index,
            pieces_count,
            plength,
            torrent_length,
        )),
{
    if pieces_count < 1 || plength > usize::MAX - (crate::message::BLOCK_MAX - 1) {
        return false;
    }
    if index == usize::MAX {
        return false;
    }
    if index + 1 != pieces_count {
        return true;
    }
    match plength.checked_mul(pieces_count) {
        None => false,
        Some(total) => torrent_length <= total && total - torrent_length <= plength,
    }
}

impl PeerWorker {
    /// Whether `choice_defined` holds for `index`.
    fn choice_defined_exec(&self, index: usize) -> (res: bool)
        ensures
            res == choice_defined(*self, index),
    {
        plan_and_size_defined(index, self.hashes.len(), self.plength, self.torrent_length)
    }

    /// Whether `step` would not return (see `step_aborts`).
    pub fn step_aborts(&self, needed: &HashSet<usize>) -> (res: bool)
        ensures
            res == step_aborts(*self, needed@),
    {
        match &self.state {
            PeerState::Bitfield(b) => b.payload().len() > usize::MAX / 8,
            PeerState::Ready => {
                let len = self.available.len();
                if len == 0 {
                    return true;
                }
                let first = first_needed(&self.available, needed);
                proof {
                    lemma_first_needed_from(self.available@, needed@, 0);
                }
                let mut pick: usize = 0;
                while pick < len
                    invariant
                        len == self.available@.len(),
                        self.state is Ready,
                        pick <= len,
                        match first_needed_from(self.available@, needed@, 0) {
                            Some(i) => first == Some(i as usize) && 0 <= i < len,
                            None => first is None,
                        },
                        forall|p: int| 0 <= p < pick ==> !#[trigger] pick_aborts(*self, needed@, p),
                    decreases len - pick,
                {
                    let v = self.available[pick];
                    let choice = if needed.contains(&v) {
                        Some(v)
                    } else {
                        match first {
                            Some(i) => Some(self.available[i]),
                            None => self.pindex,
                        }
                    };
                    assert(choice == pick_choice(self.available@, needed@, self.pindex, pick as int));
                    if let Some(index) = choice {
                        if !self.choice_defined_exec(index) {
                            assert(pick_aborts(*self, needed@, pick as int));
                            return true;
                        }
                    }
                    pick = pick + 1;
                }
                false
            },
            PeerState::Finished(k) => *k >= self.hashes.len(),
            _ => false,
        }
    }

    /// The bitfield step.
    fn bitfield_step(&mut self, needed: &HashSet<usize>) -> (action: WorkerAction)
        requires
            old(self).state matches PeerState::Bitfield(b) && b@.len() * 8 <= usize::MAX,
        ensures
            bitfield_transition(*old(self), *final(self), needed@, action),
    {
        let wanted = match &self.state {
            PeerState::Bitfield(b) => {
                let pieces = b.pieces();
                filter_needed(&pieces, needed)
            },
            _ => {
                proof {
                    assert(false);
                }
                Vec::new()
            },
        };
        if wanted.len() > 0 {
            self.available = wanted;
            self.state = PeerState::Interested;
            WorkerAction::Continue
        } else {
            WorkerAction::Stop(FooError::Empty)
        }
    }

    /// The ready step for a given random pick.
    pub fn ready_step(&mut self, needed: &mut HashSet<usize>, pick: usize) -> (action: WorkerAction)
        requires
            old(self).state is Ready,
            pick < old(self).available@.len(),
            !pick_aborts(*old(self), old(needed)@, pick as int),
        ensures
            ready_transition(*old(self), *final(self), old(needed)@, final(needed)@, pick as int, action),
    {
        let ghost old_needed = needed@;
        let ghost old_available = self.available@;
        let v = self.available[pick];
        if needed.remove(&v) {
            assert(old_needed.contains(v));
            self.pindex = Some(v);
        } else {
            assert(!old_needed.contains(v));
            assert(needed@ =~= old_needed);
            let alen = self.available.len();
            let first = first_needed(&self.available, needed);
            proof {
                lemma_first_needed_from(self.available@, needed@, 0);
            }
            if let Some(i) = first {
                assert(alen == old_available.len());
                assert(first_needed_from(old_available, old_needed, 0) == Some(i as int));
                let piece = self.available[i];
                needed.remove(&piece);
                self.pindex = Some(piece);
                self.available.remove(i);
            }
        }
        assert(self.pindex == pick_choice(old_available, old_needed, old(self).pindex, pick as int));
        match self.pindex {
            Some(index) => {
                let pieces_count = self.hashes.len();
                self.blocks = piece_parcer(index, self.torrent_length, pieces_count, self.plength);
                self.piece_size = piece_size(index, pieces_count, self.plength, self.torrent_length);
                self.all_blocks = vec![0u8; self.piece_size];
                assert(self.all_blocks@ =~= Seq::new(self.piece_size as nat, |i: int| 0u8));
                self.state = PeerState::Download(5, 0, 0);
                WorkerAction::Continue
            },
            None => WorkerAction::Stop(FooError::Empty),
        }
    }

    /// The download step.
    fn download_step(&mut self) -> (action: WorkerAction)
        requires
            old(self).state is Download,
        ensures
            download_transition(*old(self), *final(self), action),
    {
        let (count, received, requested) = match self.state {
            PeerState::Download(c, r, q) => (c, r, q),
            _ => {
                proof {
                    assert(false);
                }
                (0, 0, 0)
            },
        };
        let len = self.blocks.len();
        let sent = if requested >= len {
            0
        } else if len - requested < count {
            len - requested
        } else {
            count
        };
        let mut frames: Vec<Vec<u8>> = Vec::new();
        let mut k: usize = 0;
        while k < sent
            invariant
                len == self.blocks@.len(),
                sent == batch_len(len as int, requested as int, count as int),
                requested + sent <= len || sent == 0,
                k <= sent,
                frames@.len() == k,
                forall|j: int|
                    0 <= j < k ==> #[trigger] frames@[j]@ == request_frame(
                        self.blocks@[requested + j],
                    ),
            decreases sent - k,
        {
            frames.push(piece_wrapper(&self.blocks[requested + k]));
            k = k + 1;
        }
        self.state = PeerState::Awaiting(received, requested + sent);
        WorkerAction::SendRequests(frames)
    }

    /// The finishing step.
    fn finished_step(&mut self) -> (action: WorkerAction)
        requires
            old(self).state matches PeerState::Finished(k) && k < old(self).hashes@.len(),
        ensures
            finished_transition(*old(self), *final(self), action),
    {
        let k = match self.state {
            PeerState::Finished(k) => k,
            _ => {
                proof {
                    assert(false);
                }
                0
            },
        };
        if piece_hash_matches(self.all_blocks.as_slice(), &self.hashes[k]) {
            let mut data: Vec<u8> = Vec::new();
            std::mem::swap(&mut data, &mut self.all_blocks);
            WorkerAction::Deliver { piece_index: k, data }
        } else {
            WorkerAction::Stop(FooError::InvalidHash)
        }
    }

    /// One step of the session: what to do in the current state before the
    /// next frame is read.
    pub fn step(&mut self, needed: &mut HashSet<usize>) -> (action: WorkerAction)
        requires
            !step_aborts(*old(self), old(needed)@),
        ensures
            step_transition(*old(self), *final(self), old(needed)@, final(needed)@, action),
    {
        match self.state {
            PeerState::Connected => WorkerAction::ReadFrame,
            PeerState::Awaiting(_, _) => WorkerAction::ReadFrame,
            PeerState::Interested => WorkerAction::SendInterested(interested_frame()),
            PeerState::Bitfield(_) => self.bitfield_step(needed),
            PeerState::Ready => {
                let pick = random_index(self.available.len());
                let action = self.ready_step(needed, pick);
                assert(ready_transition(*old(self), *self, old(needed)@, needed@, pick as int, action));
                action
            },
            PeerState::Download(_, _, _) => self.download_step(),
            PeerState::Finished(_) => self.finished_step(),
        }
    }
}


/// How a frame changes the session; `Some` ends the session.
pub open spec fn frame_transition(
    old: PeerWorker,
    new: PeerWorker,
    m: MessageView,
    res: Option<FooError>,
) -> bool {
    match m {
        MessageView::Bitfield(b) => {
            &&& same_work(old, new)
            &&& new.state matches PeerState::Bitfield(nb) && nb@ == b
            &&& res is None
        },
        MessageView::Choke => {
            &&& same_work(old, new)
            &&& new.state == old.state
            &&& res matches Some(FooError::Choke)
        },
        MessageView::Unchoke => {
            &&& same_work(old, new)
            &&& new.state is Ready
            &&& res is None
        },
        MessageView::Piece { piece_index, offset, data } => {
            &&& same_torrent(old, new)
            &&& new.available@ == old.available@
            &&& new.pindex == old.pindex
            &&& new.blocks@ == old.blocks@
            &&& new.piece_size == old.piece_size
            &&& new.state == state_after_block(old.state, old.blocks@.len() as int, piece_index)
            &&& new.all_blocks@ == splice(old.all_blocks@, offset as int, data)
            &&& res is None
        },
        _ => false,
    }
}

/// What the end of a session leads to: whether to connect again, with the
/// attempt counter and the needed set updated.
pub open spec fn session_end(
    result: Result<(), FooError>,
    count: usize,
    pindex: Option<usize>,
    needed: Set<usize>,
) -> (bool, usize, Set<usize>) {
    match result {
        Ok(_) => (true, count, needed),
        Err(FooError::Empty) => (false, count, needed),
        Err(FooError::Choke) => (true, count, needed),
        Err(_) => {
            let back = match pindex {
                Some(index) => needed.insert(index),
                None => needed,
            };
            if count > 5 {
                (false, count, back)
            } else {
                (true, (count + 1) as usize, back)
            }
        },
    }
}

impl PeerWorker {
    /// Whether `on_frame` would not return (see `frame_aborts`).
    pub fn frame_aborts(&self, frame: &Message) -> (res: bool)
        ensures
            res == frame_aborts(*self, frame@),
    {
        match frame {
            Message::Bitfield(_) => false,
            Message::Choke => false,
            Message::Unchoke => false,
            Message::Piece { offset, data, .. } => {
                let n = self.all_blocks.len();
                let too_long = *offset as usize > n || data.len() > n - *offset as usize;
                let at_limit = match self.state {
                    PeerState::Awaiting(received, _) => received == usize::MAX,
                    _ => false,
                };
                too_long || at_limit
            },
            _ => true,
        }
    }

    /// Applies a frame read from the peer; `Some` ends the session.
    pub fn on_frame(&mut self, frame: Message) -> (res: Option<FooError>)
        requires
            !frame_aborts(*old(self), frame@),
        ensures
            frame_transition(*old(self), *final(self), frame@, res),
    {
        match frame {
            Message::Bitfield(bitfield) => {
                self.state = PeerState::Bitfield(bitfield);
                None
            },
            Message::Choke => Some(FooError::Choke),
            Message::Unchoke => {
                self.state = PeerState::Ready;
                None
            },
            Message::Piece { piece_index, offset, data } => {
                let len = self.blocks.len();
                let next = match self.state {
                    PeerState::Awaiting(received, requested) => {
                        if requested < len {
                            Some(PeerState::Download(1, received + 1, requested))
                        } else if received + 1 == len {
                            Some(PeerState::Finished(piece_index))
                        } else {
                            Some(PeerState::Awaiting(received + 1, requested))
                        }
                    },
                    _ => None,
                };
                if let Some(state) = next {
                    self.state = state;
                }
                copy_block(&mut self.all_blocks, offset as usize, data.as_slice());
                None
            },
            _ => {
                proof {
                    assert(false);
                }
                None
            },
        }
    }

    /// Decides, once a session has ended, whether to connect again: a
    /// delivered piece or a choke retries, an empty peer stops, and any other
    /// failure gives the chosen piece back to the needed set and retries
    /// while the counter is at most 5.
    pub fn after_session(
        &self,
        result: &Result<(), FooError>,
        count: &mut usize,
        needed: &mut HashSet<usize>,
    ) -> (retry: bool)
        ensures
            (retry, *final(count), final(needed)@) == session_end(
                *result,
                *old(count),
                self.pindex,
                old(needed)@,
            ),
    {
        match result {
            Ok(_) => true,
            Err(FooError::Empty) => false,
            Err(FooError::Choke) => true,
            Err(_) => {
                if let Some(index) = self.pindex {
                    needed.insert(index);
                }
                if *count > 5 {
                    false
                } else {
                    *count = *count + 1;
                    true
                }
            },
        }
    }
}

/// The outcome of handing a piece over to be written: success only when the
/// writer answered with the written piece.
pub fn delivery_outcome(response: Option<Option<usize>>) -> (res: Result<(), FooError>)
    ensures
        res is Ok <==> response matches Some(Some(_)),
        res matches Err(e) ==> e is Unknown,
{
    match response {
        Some(Some(_)) => Ok(()),
        _ => Err(FooError::Unknown),
    }
}


/// The request counter never runs past the block plan.
pub open spec fn counters_ok(w: PeerWorker) -> bool {
    match w.state {
        PeerState::Download(_, _, requested) => requested <= w.blocks@.len(),
        PeerState::Awaiting(_, requested) => requested <= w.blocks@.len(),
        _ => true,
    }
}

/// Every step keeps the request counter within the block plan.
pub proof fn law_step_keeps_counters(
    old: PeerWorker,
    new: PeerWorker,
    old_needed: Set<usize>,
    new_needed: Set<usize>,
    action: WorkerAction,
)
    requires
        counters_ok(old),
        step_transition(old, new, old_needed, new_needed, action),
    ensures
        counters_ok(new),
{
    if old.state is Ready {
        let pick = choose|pick: int|
            0 <= pick < old.available@.len() && #[trigger] ready_transition(
                old,
                new,
                old_needed,
                new_needed,
                pick,
                action,
            );
        assert(ready_transition(old, new, old_needed, new_needed, pick, action));
    }
}

/// Every frame keeps the request counter within the block plan.
pub proof fn law_frame_keeps_counters(
    old: PeerWorker,
    new: PeerWorker,
    m: MessageView,
    res: Option<FooError>,
)
    requires
        counters_ok(old),
        frame_transition(old, new, m, res),
    ensures
        counters_ok(new),
{
}

/// The "interested" frame the session sends parses back into an
/// "interested" message, whatever follows it.
pub proof fn law_interested_frame_parses(rest: Seq<u8>)
    ensures
        crate::message::parse_outcome(interested_frame_bytes() + rest, 0) == (
        crate::message::ParseOutcome::Frame { message: MessageView::Interested, position: 5 }),
{
    crate::message::law_simple_frame_parses(2, rest);
}


/// A ready step claims at most one piece from the shared needed set: when an
/// available piece is still needed, the chosen piece is one of them and it
/// leaves the set; otherwise the set stays as it was.
pub proof fn law_ready_claims_one_piece(
    old: PeerWorker,
    new: PeerWorker,
    old_needed: Set<usize>,
    new_needed: Set<usize>,
    pick: int,
    action: WorkerAction,
)
    requires
        0 <= pick < old.available@.len(),
        ready_transition(old, new, old_needed, new_needed, pick, action),
    ensures
        new_needed.subset_of(old_needed),
        (exists|i: int| 0 <= i < old.available@.len() && old_needed.contains(#[trigger] old.available@[i]))
            ==> (new.pindex matches Some(index) && old_needed.contains(index) && new_needed
            == old_needed.remove(index) && !new_needed.contains(index)),
        !(exists|i: int| 0 <= i < old.available@.len() && old_needed.contains(#[trigger] old.available@[i]))
            ==> new_needed == old_needed,
{
    lemma_first_needed_from(old.available@, old_needed, 0);
    lemma_first_needed_found(old.available@, old_needed, 0);
}

/// The scan finds a needed piece whenever one is available from `k` on.
pub proof fn lemma_first_needed_found(available: Seq<usize>, needed: Set<usize>, k: int)
    requires
        0 <= k,
    ensures
        (exists|i: int| k <= i < available.len() && needed.contains(#[trigger] available[i]))
            ==> first_needed_from(available, needed, k) is Some,
    decreases available.len() - k,
{
    if k < available.len() && !needed.contains(available[k]) {
        lemma_first_needed_found(available, needed, k + 1);
        if exists|i: int| k <= i < available.len() && needed.contains(#[trigger] available[i]) {
            let i = choose|i: int| k <= i < available.len() && needed.contains(#[trigger] available[i]);
            assert(i != k);
            assert(k + 1 <= i);
        }
    }
}


/// A session hands a piece over only when its bytes hash to the expected
/// digest of the piece it names; a finished piece whose bytes do not hash
/// to that digest ends the session with `InvalidHash`.
pub proof fn law_worker_delivers_checked_pieces(
    old: PeerWorker,
    new: PeerWorker,
    old_needed: Set<usize>,
    new_needed: Set<usize>,
    action: WorkerAction,
)
    requires
        !step_aborts(old, old_needed),
        step_transition(old, new, old_needed, new_needed, action),
    ensures
        action matches WorkerAction::Deliver { piece_index, data } ==> piece_index
            < old.hashes@.len() && sha1_of(data@) == old.hashes@[piece_index as int]@,
        old.state matches PeerState::Finished(k) && sha1_of(old.all_blocks@) != old.hashes@[k as int]@
            ==> action matches WorkerAction::Stop(FooError::InvalidHash),
{
    if old.state is Ready {
        let pick = choose|pick: int|
            0 <= pick < old.available@.len() && #[trigger] ready_transition(
                old,
                new,
                old_needed,
                new_needed,
                pick,
                action,
            );
        assert(ready_transition(old, new, old_needed, new_needed, pick, action));
    }
}

/// Counts one more connection attempt to a peer.
pub fn start_attempt(count: &mut usize)
    requires
        *old(count) < usize::MAX,
    ensures
        *final(count) == *old(count) + 1,
{
    *count = *count + 1;
}

/// Whether a session ended with a failure that gives its piece back and
/// retries while the counter allows.
pub open spec fn is_failure(result: Result<(), FooError>) -> bool {
    match result {
        Ok(_) => false,
        Err(FooError::Empty) => false,
        Err(FooError::Choke) => false,
        Err(_) => true,
    }
}

/// The number of failed sessions among `results`.
pub open spec fn failures(results: Seq<Result<(), FooError>>) -> nat
    decreases results.len(),
{
    if results.len() == 0 {
        0
    } else {
        failures(results.drop_last()) + if is_failure(results.last()) {
            1nat
        } else {
            0nat
        }
    }
}

/// The connection loop with one peer after sessions that ended with
/// `results`: each attempt counts one, then `session_end` decides. Gives
/// whether the loop still goes on and the counter.
pub open spec fn attempt_run(results: Seq<Result<(), FooError>>) -> (bool, nat)
    decreases results.len(),
{
    if results.len() == 0 {
        (true, 0)
    } else {
        let (go, count) = attempt_run(results.drop_last());
        if !go {
            (false, count)
        } else {
            let started = count + 1;
            match results.last() {
                Ok(_) => (true, started),
                Err(FooError::Empty) => (false, started),
                Err(FooError::Choke) => (true, started),
                Err(_) => if started > 5 {
                    (false, started)
                } else {
                    (true, started + 1)
                },
            }
        }
    }
}

/// One turn of the loop, `start_attempt` then `after_session`, is one step
/// of `attempt_run`.
pub proof fn law_attempt_turn(
    results: Seq<Result<(), FooError>>,
    result: Result<(), FooError>,
    pindex: Option<usize>,
    needed: Set<usize>,
)
    requires
        attempt_run(results).0,
        attempt_run(results).1 + 1 < usize::MAX,
    ensures
        ({
            let (retry, count, _) = session_end(
                result,
                (attempt_run(results).1 + 1) as usize,
                pindex,
                needed,
            );
            retry == attempt_run(results.push(result)).0 && count == attempt_run(
                results.push(result),
            ).1
        }),
{
    assert(results.push(result).drop_last() =~= results);
}

/// While the loop goes on, the counter is the number of sessions plus the
/// number of failed ones, and at most three sessions have failed: the
/// fourth failure ends the loop.
pub proof fn law_attempts_bounded(results: Seq<Result<(), FooError>>)
    ensures
        failures(results) <= results.len(),
        attempt_run(results).0 ==> attempt_run(results).1 == results.len() + failures(results),
        attempt_run(results).0 ==> failures(results) <= 3,
    decreases results.len(),
{
    if results.len() > 0 {
        law_attempts_bounded(results.drop_last());
    }
}

/// A failed session gives the piece it held back to the needed set.
pub proof fn law_failed_session_returns_piece(
    result: Result<(), FooError>,
    count: usize,
    index: usize,
    needed: Set<usize>,
)
    requires
        is_failure(result),
    ensures
        session_end(result, count, Some(index), needed).2 == needed.insert(index),
{
}


/// Every block that arrives while the session awaits blocks counts exactly
/// one more received block, whatever state follows: requests go on while
/// blocks of the plan are left to request, and the session is finished once
/// as many blocks arrived as the plan holds.
pub proof fn law_block_counts_once(
    old: PeerWorker,
    new: PeerWorker,
    piece_index: usize,
    offset: u32,
    data: Seq<u8>,
    res: Option<FooError>,
)
    requires
        old.state is Awaiting,
        !frame_aborts(old, MessageView::Piece { piece_index, offset, data }),
        frame_transition(old, new, MessageView::Piece { piece_index, offset, data }, res),
    ensures
        old.state matches PeerState::Awaiting(received, requested) && {
            let len = old.blocks@.len();
            &&& requested < len ==> match new.state {
                PeerState::Download(count, r2, q2) => count == 1 && r2 == received + 1 && q2
                    == requested,
                _ => false,
            }
            &&& requested >= len && received + 1 == len ==> new.state == PeerState::Finished(
                piece_index,
            )
            &&& requested >= len && received + 1 != len ==> match new.state {
                PeerState::Awaiting(r2, q2) => r2 == received + 1 && q2 == requested,
                _ => false,
            }
            &&& received + 1 <= usize::MAX
        },
{
}

/// Sending requests never changes how many blocks were received: the
/// download step waits with the received counter it had.
pub proof fn law_requests_keep_received(old: PeerWorker, new: PeerWorker, action: WorkerAction)
    requires
        old.blocks@.len() <= usize::MAX,
        download_transition(old, new, action),
    ensures
        match old.state {
            PeerState::Download(_, received, requested) => match new.state {
                PeerState::Awaiting(r2, q2) => r2 == received && q2 >= requested,
                _ => false,
            },
            _ => false,
        },
{
}

} // verus!
