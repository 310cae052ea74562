use vstd::prelude::*;

use crate::wire::read_array;

verus! {

/// The protocol name sent in a handshake: the ASCII text `BitTorrent protocol`.
pub open spec fn protocol_name() -> Seq<u8> {
    seq![66u8, 105, 116, 84, 111, 114, 114, 101, 110, 116, 32, 112, 114, 111, 116, 111, 99, 111, 108]
}

/// The length of a handshake on the wire.
pub const HANDSHAKE_LEN: usize = 68;

/// The first message sent to a peer: protocol name, reserved bytes, the
/// torrent's info hash and our peer id.
#[derive(Clone, Copy)]
pub struct Handshake {
    length: u8,
    pstr: [u8; 19],
    reserved: [u8; 8],
    info_hash: [u8; 20],
    peer_id: [u8; 20],
}

impl View for Handshake {
    type V = Seq<u8>;

    /// The 68 wire bytes, fields in declaration order.
    closed spec fn view(&self) -> Seq<u8> {
        seq![self.length] + self.pstr@ + self.reserved@ + self.info_hash@ + self.peer_id@
    }
}

/// The wire bytes of a handshake made from an info hash and a peer id.
pub open spec fn handshake_bytes(info_hash: Seq<u8>, peer_id: Seq<u8>) -> Seq<u8> {
    seq![19u8] + protocol_name() + Seq::new(8, |i: int| 0u8) + info_hash + peer_id
}

impl Handshake {
    /// Our handshake for a torrent.
    pub fn new(info_hash: [u8; 20], peer_id: [u8; 20]) -> (res: Self)
        ensures
            res@ == handshake_bytes(info_hash@, peer_id@),
    {
        let res = Handshake {
            length: 19,
            pstr: [
                66u8, 105, 116, 84, 111, 114, 114, 101, 110, 116, 32, 112, 114, 111, 116, 111, 99,
                111, 108,
            ],
            info_hash,
            peer_id,
            reserved: [0u8, 0, 0, 0, 0, 0, 0, 0],
        };
        assert(res.pstr@ =~= protocol_name());
        assert(res.reserved@ =~= Seq::new(8, |i: int| 0u8));
        res
    }

    /// The 68 wire bytes.
    pub fn to_bytes(&self) -> (res: Vec<u8>)
        ensures
            res@ == self@,
            res@.len() == HANDSHAKE_LEN,
    {
        let mut res: Vec<u8> = Vec::with_capacity(HANDSHAKE_LEN);
        res.push(self.length);
        res.extend_from_slice(&self.pstr);
        res.extend_from_slice(&self.reserved);
        res.extend_from_slice(&self.info_hash);
        res.extend_from_slice(&self.peer_id);
        assert(res@ =~= self@);
        res
    }

    /// The handshake held in 68 wire bytes, such as a peer's reply.
    pub fn from_bytes(bytes: &[u8]) -> (res: Self)
        requires
            bytes@.len() == HANDSHAKE_LEN,
        ensures
            res@ == bytes@,
    {
        let res = Handshake {
            length: bytes[0],
            pstr: read_array::<19>(bytes, 1),
            reserved: read_array::<8>(bytes, 20),
            info_hash: read_array::<20>(bytes, 28),
            peer_id: read_array::<20>(bytes, 48),
        };
        assert(res@ =~= bytes@);
        res
    }

    /// The info hash carried by this handshake.
    pub fn info_hash(&self) -> (res: [u8; 20])
        ensures
            res@ == self@.subrange(28, 48),
    {
        assert(self@.subrange(28, 48) =~= self.info_hash@);
        self.info_hash
    }

    /// The peer id carried by this handshake.
    pub fn peer_id(&self) -> (res: [u8; 20])
        ensures
            res@ == self@.subrange(48, 68),
    {
        assert(self@.subrange(48, 68) =~= self.peer_id@);
        self.peer_id
    }
}

/// Reading a handshake back from its wire bytes gives the same bytes, and
/// the info hash and peer id it was made with.
pub proof fn law_handshake_roundtrip(info_hash: Seq<u8>, peer_id: Seq<u8>)
    requires
        info_hash.len() == 20,
        peer_id.len() == 20,
    ensures
        handshake_bytes(info_hash, peer_id).len() == HANDSHAKE_LEN,
        handshake_bytes(info_hash, peer_id).subrange(28, 48) == info_hash,
        handshake_bytes(info_hash, peer_id).subrange(48, 68) == peer_id,
        handshake_bytes(info_hash, peer_id)[0] == 19,
        handshake_bytes(info_hash, peer_id).subrange(1, 20) == protocol_name(),
{
    let b = handshake_bytes(info_hash, peer_id);
    assert(b.subrange(28, 48) =~= info_hash);
    assert(b.subrange(48, 68) =~= peer_id);
    assert(b.subrange(1, 20) =~= protocol_name());
}

} // verus!
