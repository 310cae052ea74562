use vstd::prelude::*;

use crate::message::{header_len_of, MessageId, BLOCK_MAX};
use crate::wire::{be_bytes, decimal, push_decimal, u32_to_be};

verus! {

/// How a download from a peer can fail.
#[derive(Debug)]
pub enum FooError {
    /// The piece's data does not hash to the expected digest.
    InvalidHash,
    /// The peer has no piece that is still needed.
    Empty,
    /// The piece could not be written.
    Unknown,
    /// The peer choked the connection.
    Choke,
    /// The connection failed.
    Disconnect(std::io::Error),
}

impl From<std::io::Error> for FooError {
    fn from(e: std::io::Error) -> (res: Self)
        ensures
            res == FooError::Disconnect(e),
    {
        FooError::Disconnect(e)
    }
}

impl vstd::std_specs::convert::FromSpecImpl<std::io::Error> for FooError {
    open spec fn obeys_from_spec() -> bool {
        true
    }

    open spec fn from_spec(e: std::io::Error) -> Self {
        FooError::Disconnect(e)
    }
}

/// The SHA-1 digest of some bytes, as computed by the `sha1` crate.
pub uninterp spec fn sha1_of(data: Seq<u8>) -> Seq<u8>;

/// Calls `<sha1::Sha1 as sha1::Digest>::digest` on `data` and returns the 20
/// digest bytes. The digest is named `sha1_of` and depends on the bytes alone.
#[verifier::external_body]
fn sha1_digest(data: &[u8]) -> (res: [u8; 20])
    ensures
        res@ == sha1_of(data@),
{
    <sha1::Sha1 as sha1::Digest>::digest(data).into()
}

/// Whether two 20-byte digests are equal.
fn digests_equal(a: &[u8; 20], b: &[u8; 20]) -> (res: bool)
    ensures
        res == (a@ == b@),
{
    let mut i: usize = 0;
    while i < 20
        invariant
            i <= 20,
            forall|k: int| 0 <= k < i ==> a@[k] == b@[k],
        decreases 20 - i,
    {
        if a[i] != b[i] {
            return false;
        }
        i = i + 1;
    }
    assert(a@ =~= b@);
    true
}

/// Whether `data` hashes to the expected SHA-1 digest.
pub fn piece_hash_matches(data: &[u8], expected: &[u8; 20]) -> (res: bool)
    ensures
        res == (sha1_of(data@) == expected@),
{
    let hash = sha1_digest(data);
    digests_equal(&hash, expected)
}

/// The info hash of a torrent: the SHA-1 digest of its bencoded info dictionary.
pub fn info_hash(encoded_info: &[u8]) -> (res: [u8; 20])
    ensures
        res@ == sha1_of(encoded_info@),
{
    sha1_digest(encoded_info)
}

/// Calls `rand::random::<[u8; 20]>()`. The bytes are random: nothing is
/// claimed of them.
#[verifier::external_body]
fn random_peer_id() -> [u8; 20] {
    rand::random::<[u8; 20]>()
}

/// Who we are to a tracker and to peers: a random peer id and the torrent's
/// info hash.
pub struct ClientIdentity {
    pub peer_id: [u8; 20],
    pub info_hash: [u8; 20],
}

impl ClientIdentity {
    /// A fresh identity for the torrent whose bencoded info dictionary is
    /// `encoded_info`; the peer id is random.
    pub fn new(encoded_info: &[u8]) -> (res: Self)
        ensures
            res.info_hash@ == sha1_of(encoded_info@),
    {
        let peer_id = random_peer_id();
        let info_hash = info_hash(encoded_info);
        ClientIdentity { peer_id, info_hash }
    }
}

/// A lower-case hexadecimal digit.
pub open spec fn hex_lower_digit(d: int) -> char {
    if d < 10 {
        crate::wire::digit_char(d)
    } else if d == 10 {
        'a'
    } else if d == 11 {
        'b'
    } else if d == 12 {
        'c'
    } else if d == 13 {
        'd'
    } else if d == 14 {
        'e'
    } else {
        'f'
    }
}

/// An upper-case hexadecimal digit.
pub open spec fn hex_upper_digit(d: int) -> char {
    if d < 10 {
        crate::wire::digit_char(d)
    } else if d == 10 {
        'A'
    } else if d == 11 {
        'B'
    } else if d == 12 {
        'C'
    } else if d == 13 {
        'D'
    } else if d == 14 {
        'E'
    } else {
        'F'
    }
}

/// Two lower-case hexadecimal digits per byte, high digit first.
pub open spec fn hex_lower(bytes: Seq<u8>) -> Seq<char>
    decreases bytes.len(),
{
    if bytes.len() == 0 {
        Seq::empty()
    } else {
        hex_lower(bytes.drop_last()) + seq![
            hex_lower_digit(bytes.last() as int / 16),
            hex_lower_digit(bytes.last() as int % 16),
        ]
    }
}

/// Calls `hex::encode` on `data`: two lower-case hexadecimal digits per
/// byte, high digit first.
#[verifier::external_body]
fn hex_encode(data: &[u8]) -> (res: String)
    ensures
        res@ == hex_lower(data@),
{
    hex::encode(data)
}

/// Every byte as `%` and two lower-case hexadecimal digits.
pub open spec fn percent_lower(bytes: Seq<u8>) -> Seq<char>
    decreases bytes.len(),
{
    if bytes.len() == 0 {
        Seq::empty()
    } else {
        percent_lower(bytes.drop_last()) + seq!['%'] + hex_lower(seq![bytes.last()])
    }
}

/// Percent-encodes every byte of a 20-byte hash.
pub fn urlencode(t: &[u8; 20]) -> (res: String)
    ensures
        res@ == percent_lower(t@),
{
    let mut encoded = String::new();
    let mut i: usize = 0;
    while i < 20
        invariant
            i <= 20,
            t@.len() == 20,
            encoded@ == percent_lower(t@.take(i as int)),
        decreases 20 - i,
    {
        let byte = [t[i]];
        assert(t@.take(i + 1).drop_last() =~= t@.take(i as int));
        assert(byte@ =~= seq![t@.take(i + 1).last()]);
        encoded.append("%");
        let hex = hex_encode(&byte);
        encoded.append(hex.as_str());
        proof {
            reveal_strlit("%");
        }
        assert(encoded@ =~= percent_lower(t@.take(i + 1)));
        i = i + 1;
    }
    assert(t@.take(20) =~= t@);
    encoded
}

/// Whether a byte is left as is by URL encoding: ASCII letters and digits,
/// `-`, `.`, `_` and `~`.
pub open spec fn url_unreserved(b: u8) -> bool {
    ||| 48 <= b <= 57
    ||| 65 <= b <= 90
    ||| 97 <= b <= 122
    ||| b == 45
    ||| b == 46
    ||| b == 95
    ||| b == 126
}

/// URL encoding: unreserved bytes stay, every other byte becomes `%` and
/// two upper-case hexadecimal digits.
pub open spec fn url_encoded(bytes: Seq<u8>) -> Seq<char>
    decreases bytes.len(),
{
    if bytes.len() == 0 {
        Seq::empty()
    } else {
        let b = bytes.last();
        url_encoded(bytes.drop_last()) + if url_unreserved(b) {
            seq![b as char]
        } else {
            seq!['%', hex_upper_digit(b as int / 16), hex_upper_digit(b as int % 16)]
        }
    }
}

/// Calls `urlencoding::encode_binary` on `data` and takes the text out of
/// the returned `Cow`.
#[verifier::external_body]
fn url_encode_binary(data: &[u8]) -> (res: String)
    ensures
        res@ == url_encoded(data@),
{
    urlencoding::encode_binary(data).into_owned()
}

/// The start of a tracker query: `info_hash=` with the info hash
/// percent-encoded byte by byte, then `&peer_id=` with the URL-encoded peer id.
pub open spec fn tracker_query_text(info_hash: Seq<u8>, peer_id: Seq<u8>) -> Seq<char> {
    "info_hash="@ + percent_lower(info_hash) + "&peer_id="@ + url_encoded(peer_id)
}

/// The start of the query sent to the tracker.
pub fn tracker_query(info_hash: &[u8; 20], peer_id: &[u8; 20]) -> (res: String)
    ensures
        res@ == tracker_query_text(info_hash@, peer_id@),
{
    let mut query = String::new();
    query.append("info_hash=");
    let encoded = urlencode(info_hash);
    query.append(encoded.as_str());
    query.append("&peer_id=");
    let coded = url_encode_binary(peer_id);
    query.append(coded.as_str());
    query
}

/// A block to request: its piece, offset in the piece and length.
#[derive(Debug, Clone, Copy, PartialEq, Eq, Structural)]
pub struct RequestBlock {
    pub piece_index: u32,
    pub offset: usize,
    pub block_length: usize,
}

/// The wire bytes of a request message for `b`: length 13, id 6, then the
/// piece index, offset and length, each as 32 bits big-endian (offset and
/// length cut to 32 bits).
pub open spec fn request_frame(b: RequestBlock) -> Seq<u8> {
    be_bytes(13) + seq![6u8] + be_bytes(b.piece_index) + be_bytes(b.offset as u32) + be_bytes(
        b.block_length as u32,
    )
}

/// Frames a request for a block.
pub fn piece_wrapper(b: &RequestBlock) -> (res: Vec<u8>)
    ensures
        res@ == request_frame(*b),
{
    let piece_len = MessageId::Request.header_len();
    assert(piece_len == header_len_of(MessageId::Request));
    let length = u32_to_be(piece_len as u32);
    let mut buffer: Vec<u8> = Vec::new();

    let piece_index = u32_to_be(b.piece_index);
    let offset = u32_to_be(b.offset as u32);
    let block_length = u32_to_be(b.block_length as u32);

    buffer.extend_from_slice(&length);
    buffer.push(MessageId::Request.id_byte());
    buffer.extend_from_slice(&piece_index);
    buffer.extend_from_slice(&offset);
    buffer.extend_from_slice(&block_length);
    assert(buffer@ =~= request_frame(*b));
    buffer
}

/// The text of the URL that `url::Url::parse` makes of `announce` once its
/// query is set to `query`, or `None` when `announce` does not parse.
pub uninterp spec fn url_with_query(announce: Seq<char>, query: Seq<char>) -> Option<Seq<char>>;

/// Calls `url::Url::set_query` with `Some(query)` on the URL that
/// `url::Url::parse` makes of `announce`, and hands back the URL's text
/// (`String::from`); `None` when `announce` does not parse. The text is named
/// `url_with_query` and depends on the two arguments alone. `set_query`
/// panics once the URL passes `u32::MAX` bytes; `requires` keeps both texts
/// far below that (a character takes at most 12 bytes once percent-encoded).
#[verifier::external_body]
fn url_set_query(announce: &str, query: &str) -> (res: Option<String>)
    requires
        12 * (announce@.len() + query@.len()) <= u32::MAX,
    ensures
        match url_with_query(announce@, query@) {
            Some(u) => res matches Some(r) && r@ == u,
            None => res is None,
        },
{
    match url::Url::parse(announce) {
        Ok(mut url) => {
            url.set_query(Some(query));
            Some(String::from(url))
        },
        Err(_) => None,
    }
}

/// The query sent to the tracker: the info hash and peer id, then our port,
/// the counters and the number of bytes left to download.
pub open spec fn announce_query_text(info_hash: Seq<u8>, peer_id: Seq<u8>, left: nat) -> Seq<
    char,
> {
    tracker_query_text(info_hash, peer_id) + "&port=6881&uploaded=0&downloaded=0&compact=1&left="@
        + decimal(left)
}

/// The longest announce text `tracker_url` takes, in characters.
pub const ANNOUNCE_MAX: usize = 357913731;

/// Ten to the power `k`.
pub open spec fn pow10(k: nat) -> nat
    decreases k,
{
    if k == 0 {
        1
    } else {
        10 * pow10((k - 1) as nat)
    }
}

/// A number below `10^k` has at most `k` decimal digits.
pub proof fn lemma_decimal_len(n: nat, k: nat)
    requires
        k >= 1,
        n < pow10(k),
    ensures
        decimal(n).len() <= k,
    decreases k,
{
    if n >= 10 {
        assert(k >= 2) by {
            if k == 1 {
                assert(pow10(1) == 10) by {
                    reveal_with_fuel(pow10, 2);
                }
            }
        }
        assert(n / 10 < pow10((k - 1) as nat));
        lemma_decimal_len(n / 10, (k - 1) as nat);
    }
}

/// The URL of the tracker request: the announce URL with its query set to
/// `announce_query_text`; `None` when the announce text is no URL.
pub fn tracker_url(announce: &str, info_hash: &[u8; 20], peer_id: &[u8; 20], left: usize) -> (res:
    Option<String>)
    requires
        announce@.len() <= ANNOUNCE_MAX,
    ensures
        match url_with_query(announce@, announce_query_text(info_hash@, peer_id@, left as nat)) {
            Some(u) => res matches Some(r) && r@ == u,
            None => res is None,
        },
{
    let mut query = tracker_query(info_hash, peer_id);
    query.append("&port=6881&uploaded=0&downloaded=0&compact=1&left=");
    push_decimal(&mut query, left as u64);
    proof {
        law_percent_length(info_hash@);
        law_url_encoded_length(peer_id@);
        assert(pow10(20) == 100000000000000000000) by {
            reveal_with_fuel(pow10, 21);
        }
        lemma_decimal_len(left as nat, 20);
        reveal_strlit("info_hash=");
        reveal_strlit("&peer_id=");
        reveal_strlit("&port=6881&uploaded=0&downloaded=0&compact=1&left=");
        assert(query@.len() <= 210);
    }
    url_set_query(announce, query.as_str())
}

/// Where piece `piece_index` starts in the output file, cut to 32 bits.
pub fn piece_offset(piece_index: usize, plength: usize) -> (res: u32)
    requires
        piece_index * plength <= usize::MAX,
    ensures
        res == (piece_index * plength) as u32,
{
    (piece_index * plength) as u32
}

/// The size the block plan assumes for piece `index`: a full block, except
/// for the last piece, which gets the remainder of the torrent length modulo
/// the block size (a full block when that remainder is zero).
pub open spec fn planned_piece_size(index: int, torrent_length: int, pieces_count: int) -> int {
    if index == pieces_count - 1 {
        if torrent_length % (BLOCK_MAX as int) == 0 {
            BLOCK_MAX as int
        } else {
            torrent_length % (BLOCK_MAX as int)
        }
    } else {
        BLOCK_MAX as int
    }
}

/// The number of blocks a piece of `plength` bytes is split into.
pub open spec fn blocks_count(plength: int) -> int {
    (plength + (BLOCK_MAX - 1)) / (BLOCK_MAX as int)
}

/// The length of block `i` of `count` blocks: a full block, except for the
/// last one, which gets the piece size modulo the block size (a full block
/// when that is zero).
pub open spec fn planned_block_size(i: int, count: int, piece_size: int) -> int {
    if i == count - 1 {
        if piece_size % (BLOCK_MAX as int) == 0 {
            BLOCK_MAX as int
        } else {
            piece_size % (BLOCK_MAX as int)
        }
    } else {
        BLOCK_MAX as int
    }
}

/// Block `i` of the plan for piece `index`.
pub open spec fn planned_block(
    index: usize,
    torrent_length: usize,
    pieces_count: usize,
    plength: usize,
    i: int,
) -> RequestBlock {
    RequestBlock {
        piece_index: index as u32,
        offset: (i * BLOCK_MAX) as usize,
        block_length: planned_block_size(
            i,
            blocks_count(plength as int),
            planned_piece_size(index as int, torrent_length as int, pieces_count as int),
        ) as usize,
    }
}

/// Whether the block plan for a piece can be computed without overflow.
pub open spec fn plan_defined(pieces_count: usize, plength: usize) -> bool {
    &&& pieces_count >= 1
    &&& plength + (BLOCK_MAX - 1) <= usize::MAX
}

/// The blocks to request for piece `index`: one per 16 KiB of the piece length.
pub fn piece_parcer(index: usize, torrent_length: usize, pieces_count: usize, plength: usize) -> (res:
    Vec<RequestBlock>)
    requires
        plan_defined(pieces_count, plength),
    ensures
        res@.len() == blocks_count(plength as int),
        forall|i: int| 0 <= i < res@.len() ==> (#[trigger] res@[i]).piece_index == index as u32,
        forall|i: int|
            0 <= i < res@.len() ==> #[trigger] res@[i] == planned_block(
                index,
                torrent_length,
                pieces_count,
                plength,
                i,
            ),
{
    let piece_size = if index == pieces_count - 1 {
        let md = torrent_length % BLOCK_MAX;
        if md == 0 {
            BLOCK_MAX
        } else {
            md
        }
    } else {
        BLOCK_MAX
    };

    let blocks_count = (plength + (BLOCK_MAX - 1)) / BLOCK_MAX;
    let mut res: Vec<RequestBlock> = Vec::new();
    let mut i: usize = 0;
    while i < blocks_count
        invariant
            plan_defined(pieces_count, plength),
            blocks_count == self::blocks_count(plength as int),
            piece_size == planned_piece_size(
                index as int,
                torrent_length as int,
                pieces_count as int,
            ),
            i <= blocks_count,
            res@.len() == i,
            forall|k: int|
                0 <= k < i ==> #[trigger] res@[k] == planned_block(
                    index,
                    torrent_length,
                    pieces_count,
                    plength,
                    k,
                ),
        decreases blocks_count - i,
    {
        let block_size = if i == blocks_count - 1 {
            let md = piece_size % BLOCK_MAX;
            if md == 0 {
                BLOCK_MAX
            } else {
                md
            }
        } else {
            BLOCK_MAX
        };
        assert(i * BLOCK_MAX <= plength + (BLOCK_MAX - 1));
        res.push(RequestBlock { piece_index: index as u32, offset: i * BLOCK_MAX, block_length: block_size });
        i = i + 1;
    }
    res
}


/// Every planned block names the planned piece, is non-empty and at most
/// 16 KiB long, and the blocks follow each other at 16 KiB steps.
pub proof fn law_planned_blocks_bounded(
    index: usize,
    torrent_length: usize,
    pieces_count: usize,
    plength: usize,
    i: int,
)
    requires
        plan_defined(pieces_count, plength),
        0 <= i < blocks_count(plength as int),
    ensures
        planned_block(index, torrent_length, pieces_count, plength, i).piece_index == index as u32,
        1 <= planned_block(index, torrent_length, pieces_count, plength, i).block_length <= BLOCK_MAX,
        planned_block(index, torrent_length, pieces_count, plength, i).offset == i * BLOCK_MAX,
{
    assert(i * BLOCK_MAX <= plength + (BLOCK_MAX - 1));
}

/// Percent-encoding turns every byte into three characters.
pub proof fn law_percent_length(bytes: Seq<u8>)
    ensures
        percent_lower(bytes).len() == 3 * bytes.len(),
    decreases bytes.len(),
{
    if bytes.len() > 0 {
        law_percent_length(bytes.drop_last());
        reveal_with_fuel(hex_lower, 2);
    }
}

/// URL encoding leaves a byte as one character or makes it three, so the
/// result is between one and three times as long as the input.
pub proof fn law_url_encoded_length(bytes: Seq<u8>)
    ensures
        bytes.len() <= url_encoded(bytes).len() <= 3 * bytes.len(),
    decreases bytes.len(),
{
    if bytes.len() > 0 {
        law_url_encoded_length(bytes.drop_last());
    }
}


/// The tracker query is the fixed text up to `left=`, followed by the
/// decimal digits of the whole number of bytes left, for every `left`.
pub proof fn law_query_reports_left(info_hash: Seq<u8>, peer_id: Seq<u8>, left: nat)
    ensures
        ({
            let head = tracker_query_text(info_hash, peer_id)
                + "&port=6881&uploaded=0&downloaded=0&compact=1&left="@;
            let text = announce_query_text(info_hash, peer_id, left);
            &&& text.len() > head.len()
            &&& text.subrange(0, head.len() as int) == head
            &&& crate::wire::all_digits(text.subrange(head.len() as int, text.len() as int))
            &&& crate::wire::digits_value(text.subrange(head.len() as int, text.len() as int))
                == left
        }),
{
    let head = tracker_query_text(info_hash, peer_id)
        + "&port=6881&uploaded=0&downloaded=0&compact=1&left="@;
    let text = announce_query_text(info_hash, peer_id, left);
    crate::wire::law_decimal_reads_back(left);
    assert(text.subrange(0, head.len() as int) =~= head);
    assert(text.subrange(head.len() as int, text.len() as int) =~= decimal(left));
}

} // verus!
