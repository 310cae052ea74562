use torrent_client::bitfield::Bitfield;
use torrent_client::handshake::{Handshake, HANDSHAKE_LEN};
use torrent_client::message::{
    too_large_message, unknown_type_message, Cursor, Message, MessageId, ParsingError, Request, MAX,
};
use torrent_client::piece::{Block, BlockData, BlockInfo, BLOCK_LEN};

fn frame(id: u8, payload: &[u8]) -> Vec<u8> {
    let mut out = ((payload.len() + 1) as u32).to_be_bytes().to_vec();
    out.push(id);
    out.extend_from_slice(payload);
    out
}

#[test]
fn bitfield_has_piece_reads_bits_most_significant_first() {
    let b = Bitfield::from_payload(vec![0b1010_0000, 0b0000_0001]);
    assert!(b.has_piece(0));
    assert!(!b.has_piece(1));
    assert!(b.has_piece(2));
    assert!(b.has_piece(15));
    assert!(!b.has_piece(14));
    assert!(!b.has_piece(16));
    assert!(!b.has_piece(usize::MAX));
}

#[test]
fn bitfield_pieces_lists_set_bits_in_order() {
    let b = Bitfield::from_payload(vec![0b1010_0000, 0b0000_0001]);
    assert_eq!(b.pieces(), vec![0, 2, 15]);
    assert_eq!(Bitfield::from_payload(vec![]).pieces(), Vec::<usize>::new());
}

#[test]
fn bitfield_pieces_match_has_piece() {
    let b = Bitfield::from_payload(vec![0x5a, 0xc3, 0x00, 0xff]);
    let pieces = b.pieces();
    for i in 0..40 {
        assert_eq!(pieces.contains(&i), b.has_piece(i));
    }
}

#[test]
fn bitfield_has_any() {
    let b = Bitfield::from_payload(vec![0b0100_0000]);
    assert!(b.has_any(&[5, 1]));
    assert!(!b.has_any(&[0, 2, 9]));
    assert!(!b.has_any(&[]));
}

#[test]
fn header_lengths_and_ids() {
    assert_eq!(MessageId::Choke.header_len(), 1);
    assert_eq!(MessageId::Have.header_len(), 9);
    assert_eq!(MessageId::Bitfield.header_len(), 5);
    assert_eq!(MessageId::Request.header_len(), 13);
    assert_eq!(MessageId::Piece.header_len(), 9);
    assert_eq!(MessageId::Cancel.header_len(), 13);
    assert_eq!(MessageId::Cancel.id_byte(), 8);
    assert_eq!(MessageId::from_byte(7), Some(MessageId::Piece));
    assert_eq!(MessageId::from_byte(9), None);
}

#[test]
fn parse_piece_frame() {
    let mut payload = vec![0, 0, 0, 3, 0, 0, 0x40, 0];
    payload.extend_from_slice(&[9, 8, 7]);
    let mut bytes = frame(7, &payload);
    bytes.extend_from_slice(&[1, 2, 3]);
    let mut cursor = Cursor::new(&bytes);
    let parsed = Message::parse(&mut cursor).unwrap();
    assert_eq!(
        parsed,
        Some(Message::Piece { piece_index: 3, offset: 0x4000, data: BlockData::from(vec![9, 8, 7]) })
    );
    assert_eq!(cursor.position(), 16);
}

#[test]
fn parse_simple_frames() {
    for (id, expected) in [
        (0u8, Message::Choke),
        (1, Message::Unchoke),
        (2, Message::Interested),
        (3, Message::NotInterested),
    ] {
        let bytes = frame(id, &[]);
        let mut cursor = Cursor::new(&bytes);
        assert_eq!(Message::parse(&mut cursor).unwrap(), Some(expected));
        assert_eq!(cursor.position(), 5);
    }
}

#[test]
fn parse_bitfield_frame_takes_rest_of_buffer() {
    let bytes = frame(5, &[0xff, 0x01]);
    let mut cursor = Cursor::new(&bytes);
    let parsed = Message::parse(&mut cursor).unwrap();
    assert_eq!(parsed, Some(Message::Bitfield(Bitfield::from_payload(vec![0xff, 0x01]))));
    assert_eq!(cursor.position(), 7);
}

#[test]
fn parse_short_buffer_and_keep_alive() {
    let bytes = [0u8, 0, 0];
    let mut cursor = Cursor::new(&bytes);
    assert!(matches!(Message::parse(&mut cursor), Ok(None)));
    assert_eq!(cursor.position(), 0);

    let bytes = [0u8, 0, 0, 0, 9];
    let mut cursor = Cursor::new(&bytes);
    assert!(matches!(Message::parse(&mut cursor), Ok(None)));
    assert_eq!(cursor.position(), 4);
}

#[test]
fn parse_incomplete_reports_buffer_length() {
    let bytes = [0u8, 0, 0, 10, 7, 0];
    let mut cursor = Cursor::new(&bytes);
    match Message::parse(&mut cursor) {
        Err(ParsingError::Incomplete(n)) => assert_eq!(n, 6),
        other => panic!("unexpected {:?}", other),
    }
}

#[test]
fn parse_rejects_large_frames() {
    let len = (MAX + 1) as u32;
    let mut bytes = len.to_be_bytes().to_vec();
    bytes.resize(4 + MAX + 1, 0);
    let mut cursor = Cursor::new(&bytes);
    match Message::parse(&mut cursor) {
        Err(ParsingError::Other(e)) => {
            assert_eq!(e.kind(), std::io::ErrorKind::InvalidData);
            assert_eq!(e.to_string(), format!("Frame of length {} is too large.", MAX + 1));
        }
        other => panic!("unexpected {:?}", other),
    }
}

#[test]
fn parse_rejects_unknown_ids() {
    let bytes = frame(42, &[]);
    let mut cursor = Cursor::new(&bytes);
    match Message::parse(&mut cursor) {
        Err(ParsingError::Other(e)) => {
            assert_eq!(e.kind(), std::io::ErrorKind::InvalidData);
            assert_eq!(e.to_string(), "Unknown message type 42.");
        }
        other => panic!("unexpected {:?}", other),
    }
}

#[test]
fn parse_aborts_on_unhandled_kinds() {
    let bytes = frame(4, &[0, 0, 0, 1]);
    assert!(Message::parse_aborts(&Cursor::new(&bytes)));
    let bytes = frame(7, &[0, 0]);
    assert!(Message::parse_aborts(&Cursor::new(&bytes)));
    let bytes = frame(1, &[]);
    assert!(!Message::parse_aborts(&Cursor::new(&bytes)));
}

#[test]
fn request_roundtrip() {
    let r = Request::new(7, 0x4000, 300);
    assert_eq!(r.index(), 7);
    assert_eq!(r.begin(), 0x4000);
    assert_eq!(r.length(), 300);
    let bytes = r.as_bytes();
    assert_eq!(bytes, [0, 0, 0, 7, 0, 0, 0x40, 0, 0, 0, 1, 44]);
    let back = Request::from_bytes(bytes);
    assert_eq!(back.index(), 7);
    assert_eq!(back.length(), 300);
}

#[test]
fn handshake_bytes() {
    let h = Handshake::new([1; 20], [2; 20]);
    let bytes = h.to_bytes();
    assert_eq!(bytes.len(), HANDSHAKE_LEN);
    assert_eq!(bytes[0], 19);
    assert_eq!(&bytes[1..20], b"BitTorrent protocol");
    assert_eq!(&bytes[20..28], &[0; 8]);
    assert_eq!(&bytes[28..48], &[1; 20]);
    assert_eq!(&bytes[48..68], &[2; 20]);
    let back = Handshake::from_bytes(&bytes);
    assert_eq!(back.info_hash(), [1; 20]);
    assert_eq!(back.peer_id(), [2; 20]);
    assert_eq!(back.to_bytes(), bytes);
}

#[test]
fn block_info_and_blocks() {
    let info = BlockInfo { piece_index: 1, offset: 0x8000, len: 0x4000 };
    assert_eq!(info.index_in_piece(), 2);
    assert_eq!(BLOCK_LEN, 0x4000);
    assert_eq!(info.to_string(), "(piece: 1 offset: 32768 len: 16384)");
    let block = Block::new(info, vec![5; 0x4000]);
    assert_eq!(block.info(), info);
    assert_eq!(block.data.len(), 0x4000);
    assert_eq!(block.data.as_slice()[0], 5);
    let short = Block::new(info, vec![1, 2, 3]);
    assert_eq!(short.info().len, 3);
    assert_eq!(BlockData::from(vec![1u8, 2]).into_vec(), vec![1, 2]);
}

#[test]
fn request_bytes_in_place() {
    let mut r = Request::new(0, 0, 0);
    r.as_bytes_mut().copy_from_slice(&[0, 0, 1, 0, 0, 0, 0, 9, 0, 0, 0x40, 0]);
    assert_eq!(r.index(), 256);
    assert_eq!(r.begin(), 9);
    assert_eq!(r.length(), 0x4000);
    assert_eq!(r.as_bytes_mut().len(), 12);
}

#[test]
fn parse_from_a_later_position() {
    let mut bytes = frame(1, &[]);
    bytes.extend(frame(2, &[]));
    let mut cursor = Cursor::new(&bytes);
    assert_eq!(Message::parse(&mut cursor).unwrap(), Some(Message::Unchoke));
    assert_eq!(Message::parse(&mut cursor).unwrap(), Some(Message::Interested));
    assert_eq!(cursor.position(), 10);
    assert_eq!(cursor.get_ref().len(), 10);
    assert!(!cursor.has_remaining());
    cursor.set_position(0);
    assert!(cursor.has_remaining());
    assert_eq!(Message::parse(&mut cursor).unwrap(), Some(Message::Unchoke));
}

#[test]
fn error_texts_and_decimals() {
    assert_eq!(too_large_message(65537), "Frame of length 65537 is too large.");
    assert_eq!(unknown_type_message(255), "Unknown message type 255.");
    let zero = BlockInfo { piece_index: 0, offset: 0, len: 0 };
    assert_eq!(zero.to_string(), "(piece: 0 offset: 0 len: 0)");
    let big = BlockInfo { piece_index: usize::MAX, offset: u32::MAX, len: 10 };
    assert_eq!(
        big.to_string(),
        format!("(piece: {} offset: {} len: 10)", usize::MAX, u32::MAX)
    );
}
