use vstd::prelude::*;

verus! {

/// Whether bit `i` of a bitfield is set; bit 0 is the most significant bit
/// of the first byte.
pub open spec fn bit_set(bytes: Seq<u8>, i: int) -> bool {
    let byte_index = i / 8;
    &&& 0 <= i
    &&& byte_index < bytes.len()
    &&& bytes[byte_index] & (0x80u8 >> ((i % 8) as u8)) != 0
}

/// The indices of the set bits among the first `n` bits, in increasing order.
pub open spec fn set_bits(bytes: Seq<u8>, n: nat) -> Seq<usize>
    decreases n,
{
    if n == 0 {
        Seq::empty()
    } else {
        let prev = set_bits(bytes, (n - 1) as nat);
        if bit_set(bytes, n - 1) {
            prev.push((n - 1) as usize)
        } else {
            prev
        }
    }
}

/// The indices of all set bits of a payload, in increasing order.
pub open spec fn all_pieces(bytes: Seq<u8>) -> Seq<usize> {
    set_bits(bytes, bytes.len() * 8)
}

/// The pieces a peer announces to have, one bit per piece.
#[derive(Debug, PartialEq)]
pub struct Bitfield {
    payload: Vec<u8>,
}

impl View for Bitfield {
    type V = Seq<u8>;

    closed spec fn view(&self) -> Seq<u8> {
        self.payload@
    }
}

impl Bitfield {
    /// Wraps the raw payload of a bitfield message.
    pub fn from_payload(payload: Vec<u8>) -> (res: Bitfield)
        ensures
            res@ == payload@,
    {
        Bitfield { payload }
    }

    /// The raw payload bytes.
    pub fn payload(&self) -> (res: &[u8])
        ensures
            res@ == self@,
    {
        self.payload.as_slice()
    }

    /// Whether the peer has the piece `index`; indices past the payload are absent.
    pub fn has_piece(&self, index: usize) -> (res: bool)
        ensures
            res == bit_set(self@, index as int),
    {
        let byte_index = index / 8;
        let offset = (index % 8) as u8;
        if byte_index >= self.payload.len() {
            return false;
        }
        let byte = self.payload[byte_index];
        byte & (0x80u8 >> offset) != 0
    }

    /// Whether the peer has any of `pieces`.
    pub fn has_any(&self, pieces: &[usize]) -> (res: bool)
        ensures
            res == exists|i: int| 0 <= i < pieces@.len() && #[trigger] bit_set(self@, pieces@[i] as int),
    {
        let len = pieces.len();
        let mut i: usize = 0;
        while i < len
            invariant
                len == pieces@.len(),
                i <= len,
                forall|k: int| 0 <= k < i ==> !#[trigger] bit_set(self@, pieces@[k] as int),
            decreases len - i,
        {
            if self.has_piece(pieces[i]) {
                return true;
            }
            i = i + 1;
        }
        false
    }

    /// All announced pieces, in increasing order.
    pub fn pieces(&self) -> (res: Vec<usize>)
        requires
            self@.len() * 8 <= usize::MAX,
        ensures
            res@ == all_pieces(self@),
    {
        let mut res: Vec<usize> = Vec::new();
        let len = self.payload.len();
        let mut byte_i: usize = 0;
        while byte_i < len
            invariant
                len == self@.len(),
                len * 8 <= usize::MAX,
                byte_i <= len,
                res@ == set_bits(self@, byte_i as nat * 8),
            decreases len - byte_i,
        {
            let byte = self.payload[byte_i];
            let mut bit_i: u8 = 0;
            while bit_i < 8
                invariant
                    len == self@.len(),
                    len * 8 <= usize::MAX,
                    byte_i < len,
                    byte == self@[byte_i as int],
                    bit_i <= 8,
                    res@ == set_bits(self@, (byte_i * 8 + bit_i) as nat),
                decreases 8 - bit_i,
            {
                let piece_i = byte_i * 8 + bit_i as usize;
                assert(piece_i as int / 8 == byte_i && piece_i as int % 8 == bit_i);
                if byte & (0x80u8 >> bit_i) != 0 {
                    res.push(piece_i);
                }
                bit_i = bit_i + 1;
            }
            byte_i = byte_i + 1;
        }
        res
    }
}

/// Every index in `set_bits(bytes, n)` is below `n` and names a set bit, and
/// the indices are strictly increasing.
pub proof fn lemma_set_bits_sound(bytes: Seq<u8>, n: nat)
    requires
        n <= usize::MAX + 1,
    ensures
        forall|k: int|
            0 <= k < set_bits(bytes, n).len() ==> set_bits(bytes, n)[k] < n && bit_set(
                bytes,
                set_bits(bytes, n)[k] as int,
            ),
        forall|j: int, k: int|
            #![trigger set_bits(bytes, n)[j], set_bits(bytes, n)[k]]
            0 <= j < k < set_bits(bytes, n).len() ==> set_bits(bytes, n)[j] < set_bits(bytes, n)[k],
        set_bits(bytes, n).len() <= n,
    decreases n,
{
    if n > 0 {
        let prev = set_bits(bytes, (n - 1) as nat);
        lemma_set_bits_sound(bytes, (n - 1) as nat);
        let s = set_bits(bytes, n);
        if bit_set(bytes, n - 1) {
            assert(s == prev.push((n - 1) as usize));
            assert forall|k: int| 0 <= k < s.len() implies s[k] < n && bit_set(bytes, s[k] as int) by {
                if k < prev.len() {
                    assert(s[k] == prev[k]);
                }
            }
        }
    }
}

/// Every set bit below `n` occurs in `set_bits(bytes, n)`.
pub proof fn lemma_set_bits_complete(bytes: Seq<u8>, n: nat, i: int)
    requires
        0 <= i < n,
        bit_set(bytes, i),
        n <= usize::MAX + 1,
    ensures
        set_bits(bytes, n).contains(i as usize),
    decreases n,
{
    if i < n - 1 {
        lemma_set_bits_complete(bytes, (n - 1) as nat, i);
        let prev = set_bits(bytes, (n - 1) as nat);
        let k = choose|k: int| 0 <= k < prev.len() && prev[k] == i as usize;
        if bit_set(bytes, n - 1) {
            assert(set_bits(bytes, n)[k] == i as usize);
        }
    } else {
        let s = set_bits(bytes, n);
        assert(s[s.len() - 1] == i as usize);
    }
}

/// The pieces listed by `pieces` are exactly those for which `has_piece`
/// holds, each below eight times the payload length, listed in strictly
/// increasing order.
pub proof fn law_pieces_match_has_piece(bitfield: Bitfield)
    requires
        bitfield@.len() * 8 <= usize::MAX,
    ensures
        forall|k: int|
            0 <= k < all_pieces(bitfield@).len() ==> #[trigger] all_pieces(bitfield@)[k] < 8
                * bitfield@.len(),
        forall|i: usize| #[trigger]
            all_pieces(bitfield@).contains(i) <==> bit_set(bitfield@, i as int),
        forall|j: int, k: int|
            #![trigger all_pieces(bitfield@)[j], all_pieces(bitfield@)[k]]
            0 <= j < k < all_pieces(bitfield@).len() ==> all_pieces(bitfield@)[j] < all_pieces(
                bitfield@,
            )[k],
{
    let n = bitfield@.len() * 8;
    lemma_set_bits_sound(bitfield@, n);
    assert forall|i: usize| bit_set(bitfield@, i as int) implies set_bits(bitfield@, n).contains(i) by {
        lemma_set_bits_complete(bitfield@, n, i as int);
    }
}

} // verus!
