use vstd::prelude::*;

use crate::wire::read_array;

verus! {

#[verifier::external_type_specification]
#[verifier::external_body]
pub struct ExBencodeError(serde_bencode::Error);

/// Why a torrent file could not be read.
#[derive(Debug)]
pub enum TorrentError {
    ParseError,
}

impl From<serde_bencode::Error> for TorrentError {
    fn from(_e: serde_bencode::Error) -> (res: Self)
        ensures
            res is ParseError,
    {
        TorrentError::ParseError
    }
}

impl vstd::std_specs::convert::FromSpecImpl<serde_bencode::Error> for TorrentError {
    open spec fn obeys_from_spec() -> bool {
        true
    }

    open spec fn from_spec(e: serde_bencode::Error) -> Self {
        TorrentError::ParseError
    }
}

impl TorrentError {
    /// The message shown for this error.
    pub fn to_string(&self) -> (res: String)
        ensures
            res@ == "cant parse torrent file"@,
    {
        let mut out = String::new();
        out.append("cant parse torrent file");
        out
    }
}

/// The SHA-1 digests of the pieces, in piece order.
#[derive(Debug, Clone)]
pub struct Hashes(pub Vec<[u8; 20]>);

/// The `pieces` string of a torrent cut into 20-byte digests.
pub open spec fn hashes_of(bytes: Seq<u8>) -> Seq<Seq<u8>> {
    Seq::new(bytes.len() / 20, |i: int| bytes.subrange(20 * i, 20 * i + 20))
}

impl Hashes {
    /// The digests held in the `pieces` string of a torrent: a concatenation
    /// of 20-byte digests, so its length must be a multiple of 20.
    pub fn from_bytes(bytes: &[u8]) -> (res: Option<Hashes>)
        ensures
            res is Some <==> bytes@.len() % 20 == 0,
            res matches Some(h) ==> h.0@.len() == bytes@.len() / 20 && forall|i: int|
                0 <= i < h.0@.len() ==> #[trigger] h.0@[i]@ == hashes_of(bytes@)[i],
    {
        let len = bytes.len();
        if len % 20 != 0 {
            return None;
        }
        let count = len / 20;
        let mut out: Vec<[u8; 20]> = Vec::with_capacity(count);
        let mut i: usize = 0;
        while i < count
            invariant
                len == bytes@.len(),
                count == len / 20,
                len % 20 == 0,
                i <= count,
                out@.len() == i,
                forall|k: int| 0 <= k < i ==> #[trigger] out@[k]@ == hashes_of(bytes@)[k],
            decreases count - i,
        {
            assert(20 * i + 20 <= len);
            out.push(read_array::<20>(bytes, 20 * i));
            i = i + 1;
        }
        Some(Hashes(out))
    }

    /// The `pieces` string: the digests concatenated.
    pub fn to_bytes(&self) -> (res: Vec<u8>)
        requires
            self.0@.len() * 20 <= usize::MAX,
        ensures
            res@.len() == self.0@.len() * 20,
            forall|i: int|
                0 <= i < self.0@.len() ==> #[trigger] res@.subrange(20 * i, 20 * i + 20)
                    == self.0@[i]@,
    {
        let n = self.0.len();
        let mut out: Vec<u8> = Vec::new();
        let mut i: usize = 0;
        while i < n
            invariant
                n == self.0@.len(),
                n * 20 <= usize::MAX,
                i <= n,
                out@.len() == i * 20,
                forall|k: int|
                    0 <= k < i ==> #[trigger] out@.subrange(20 * k, 20 * k + 20) == self.0@[k]@,
            decreases n - i,
        {
            let ghost before = out@;
            out.extend_from_slice(&self.0[i]);
            assert forall|k: int| 0 <= k < i + 1 implies #[trigger] out@.subrange(
                20 * k,
                20 * k + 20,
            ) == self.0@[k]@ by {
                if k < i {
                    assert(out@.subrange(20 * k, 20 * k + 20) =~= before.subrange(
                        20 * k,
                        20 * k + 20,
                    ));
                } else {
                    assert(out@.subrange(20 * k, 20 * k + 20) =~= self.0@[k]@);
                }
            }
            i = i + 1;
        }
        out
    }
}

/// A peer's IPv4 address and port, as a tracker lists it.
#[derive(Debug, Clone, Copy, PartialEq, Eq)]
pub struct PeerAddr {
    pub ip: [u8; 4],
    pub port: u16,
}

/// The peers a tracker returned.
#[derive(Debug, Clone)]
pub struct Peers(pub Vec<PeerAddr>);

/// A tracker's answer: its peers and how long to wait before asking again,
/// in seconds.
#[derive(Debug, Clone)]
pub struct PeersInfo {
    pub peers: Peers,
    pub interval: u64,
}

/// Whether `p` is the peer held in the six bytes at `6 * i` of a compact
/// peer list: four address bytes, then the port in big-endian order.
pub open spec fn compact_peer_at(bytes: Seq<u8>, i: int, p: PeerAddr) -> bool {
    &&& p.ip@ == bytes.subrange(6 * i, 6 * i + 4)
    &&& p.port == bytes[6 * i + 4] * 256 + bytes[6 * i + 5]
}

impl Peers {
    /// The peers of a compact peer list: six bytes per peer, so its length
    /// must be a multiple of 6.
    pub fn from_compact(bytes: &[u8]) -> (res: Option<Peers>)
        ensures
            res is Some <==> bytes@.len() % 6 == 0,
            res matches Some(p) ==> p.0@.len() == bytes@.len() / 6 && forall|i: int|
                0 <= i < p.0@.len() ==> #[trigger] compact_peer_at(bytes@, i, p.0@[i]),
    {
        let len = bytes.len();
        if len % 6 != 0 {
            return None;
        }
        let count = len / 6;
        let mut out: Vec<PeerAddr> = Vec::with_capacity(count);
        let mut i: usize = 0;
        while i < count
            invariant
                len == bytes@.len(),
                count == len / 6,
                len % 6 == 0,
                i <= count,
                out@.len() == i,
                forall|k: int| 0 <= k < i ==> #[trigger] compact_peer_at(bytes@, k, out@[k]),
            decreases count - i,
        {
            assert(6 * i + 6 <= len);
            let ip = read_array::<4>(bytes, 6 * i);
            let port = bytes[6 * i + 4] as u16 * 256 + bytes[6 * i + 5] as u16;
            out.push(PeerAddr { ip, port });
            i = i + 1;
        }
        Some(Peers(out))
    }
}

/// There is a key `length` or a key `files`, but not both or neither.
#[derive(Debug, Clone)]
pub enum Keys {
    /// A single file of `length` bytes.
    SingleFile { length: usize },
}

/// The info dictionary of a torrent.
#[derive(Debug, Clone)]
pub struct Info {
    /// The suggested name to save the file as.
    pub name: String,
    /// The number of bytes in each piece.
    pub plength: usize,
    /// The digest of each piece.
    pub pieces: Hashes,
    pub keys: Keys,
}

/// A torrent: its tracker and its info dictionary.
#[derive(Debug, Clone)]
pub struct Torrent {
    /// The URL of the tracker.
    pub announce: String,
    pub info: Info,
}

impl Torrent {
    /// The length of the torrent's content in bytes.
    pub fn length(&self) -> (res: usize)
        ensures
            self.info.keys matches Keys::SingleFile { length } && res == length,
    {
        match &self.info.keys {
            Keys::SingleFile { length } => *length,
        }
    }
}


/// Cutting the concatenation of digests back into 20-byte pieces gives the
/// digests again.
pub proof fn law_hashes_roundtrip(bytes: Seq<u8>, digests: Seq<Seq<u8>>)
    requires
        bytes.len() == 20 * digests.len(),
        forall|i: int| 0 <= i < digests.len() ==> #[trigger] bytes.subrange(20 * i, 20 * i + 20) == digests[i],
    ensures
        hashes_of(bytes) == digests,
{
    assert(bytes.len() / 20 == digests.len());
    assert(hashes_of(bytes) =~= digests);
}

} // verus!
