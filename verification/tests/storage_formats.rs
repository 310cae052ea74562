use torrent_client::bitfield::Bitfield;
use torrent_client::message::Message;
use torrent_client::peer::{FrameBuffer, PeerSession};
use torrent_client::piece::BlockData;
use torrent_client::torrent::{Hashes, Info, Keys, PeerAddr, Peers, Torrent, TorrentError};

#[test]
fn hashes_roundtrip() {
    let mut bytes = vec![1u8; 20];
    bytes.extend_from_slice(&[2u8; 20]);
    let hashes = Hashes::from_bytes(&bytes).unwrap();
    assert_eq!(hashes.0, vec![[1u8; 20], [2u8; 20]]);
    assert_eq!(hashes.to_bytes(), bytes);
    assert!(Hashes::from_bytes(&[0u8; 21]).is_none());
    assert_eq!(Hashes::from_bytes(&[]).unwrap().0.len(), 0);
}

#[test]
fn compact_peers() {
    let peers = Peers::from_compact(&[127, 0, 0, 1, 0x1a, 0xe1, 10, 0, 0, 2, 0, 80]).unwrap();
    assert_eq!(
        peers.0,
        vec![PeerAddr { ip: [127, 0, 0, 1], port: 6881 }, PeerAddr { ip: [10, 0, 0, 2], port: 80 }]
    );
    assert!(Peers::from_compact(&[1, 2, 3]).is_none());
}

#[test]
fn torrent_length_and_errors() {
    let t = Torrent {
        announce: "http://tracker".to_string(),
        info: Info {
            name: "f".to_string(),
            plength: 16,
            pieces: Hashes(vec![]),
            keys: Keys::SingleFile { length: 1234 },
        },
    };
    assert_eq!(t.length(), 1234);
    let err = serde_bencode::from_bytes::<String>(b"x").unwrap_err();
    let e = TorrentError::from(err);
    assert!(matches!(e, TorrentError::ParseError));
    assert_eq!(e.to_string(), "cant parse torrent file");
}

#[test]
fn frame_buffer_parses_and_consumes() {
    let mut fb = FrameBuffer::new();
    assert!(fb.is_empty());
    fb.extend(&[0, 0, 0, 1]);
    assert!(fb.parse_frame().is_none());
    assert!(!fb.is_empty());
    fb.extend(&[1, 0, 0, 0, 0]);
    assert_eq!(fb.parse_frame(), Some(Message::Unchoke));
    assert!(fb.parse_frame().is_none());
    assert!(fb.is_empty());
    fb.extend(&[0, 0, 0, 12, 7, 0, 0, 0, 1, 0, 0, 0, 2, 4, 5, 6]);
    assert_eq!(
        fb.parse_frame(),
        Some(Message::Piece { piece_index: 1, offset: 2, data: BlockData::from(vec![4, 5, 6]) })
    );
    assert!(fb.is_empty());
    fb.extend(&[0, 0, 0, 1, 42]);
    assert!(fb.parse_frame().is_none());
    assert!(!fb.is_empty());
}

#[test]
fn peer_session_bitfield() {
    let mut s = PeerSession::new();
    assert!(s.get_bitfield().is_none());
    s.set_bitfield(Bitfield::from_payload(vec![0x80]));
    assert!(s.get_bitfield().unwrap().has_piece(0));
    assert!(!s.choked);
}

#[test]
fn frame_buffer_checks_and_length() {
    let mut fb = FrameBuffer::new();
    fb.extend(&[0, 0, 0, 5, 4, 0, 0, 0, 1]);
    assert_eq!(fb.len(), 9);
    assert!(fb.parse_aborts());
    let mut fb = FrameBuffer::new();
    fb.extend(&[0, 0, 0, 1, 2, 0, 0]);
    assert!(!fb.parse_aborts());
    assert_eq!(fb.parse_frame(), Some(Message::Interested));
    assert_eq!(fb.len(), 2);
}

#[test]
fn interested_frame_reads_back() {
    let mut fb = FrameBuffer::new();
    fb.extend(&torrent_client::worker::interested_frame());
    assert_eq!(fb.parse_frame(), Some(Message::Interested));
    assert!(fb.is_empty());
}

#[test]
fn end_of_stream_and_first_frame() {
    let mut fb = FrameBuffer::new();
    assert_eq!(fb.end_of_stream(), torrent_client::peer::StreamEnd::Closed);
    fb.extend(&[0, 0]);
    assert_eq!(fb.end_of_stream(), torrent_client::peer::StreamEnd::Reset);

    let mut s = PeerSession::new();
    assert!(!s.accept_first_frame(Message::Unchoke));
    assert!(s.get_bitfield().is_none());
    assert!(s.accept_first_frame(Message::Bitfield(Bitfield::from_payload(vec![0x40]))));
    assert!(s.get_bitfield().unwrap().has_piece(1));
}
