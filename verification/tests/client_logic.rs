use std::collections::HashSet;

use torrent_client::bitfield::Bitfield;
use torrent_client::client::{
    info_hash, piece_hash_matches, piece_offset, piece_parcer, piece_wrapper, tracker_query,
    urlencode, ClientIdentity, FooError, RequestBlock,
};
use torrent_client::download::DownloadState;
use torrent_client::fetch::PieceDownload;
use torrent_client::message::Message;
use torrent_client::piece::BlockData;
use torrent_client::worker::{
    delivery_outcome, interested_frame, piece_size, PeerState, PeerWorker, WorkerAction,
};

const ABC_SHA1: [u8; 20] = [
    0xa9, 0x99, 0x3e, 0x36, 0x47, 0x06, 0x81, 0x6a, 0xba, 0x3e, 0x25, 0x71, 0x78, 0x50, 0xc2,
    0x6c, 0x9c, 0xd0, 0xd8, 0x9d,
];

#[test]
fn request_frame_bytes() {
    let b = RequestBlock { piece_index: 2, offset: 0x4000, block_length: 0x1000 };
    assert_eq!(
        piece_wrapper(&b),
        vec![0, 0, 0, 13, 6, 0, 0, 0, 2, 0, 0, 0x40, 0, 0, 0, 0x10, 0]
    );
}

#[test]
fn block_plan_for_middle_and_last_piece() {
    let first = piece_parcer(0, 40000, 2, 32768);
    assert_eq!(
        first,
        vec![
            RequestBlock { piece_index: 0, offset: 0, block_length: 16384 },
            RequestBlock { piece_index: 0, offset: 16384, block_length: 16384 },
        ]
    );
    let last = piece_parcer(1, 40000, 2, 32768);
    assert_eq!(last[0].block_length, 16384);
    assert_eq!(last[1], RequestBlock { piece_index: 1, offset: 16384, block_length: 40000 % 16384 });
    assert_eq!(piece_parcer(0, 10, 1, 0), vec![]);
    assert_eq!(piece_parcer(0, 10, 1, 1).len(), 1);
}

#[test]
fn piece_sizes_and_offsets() {
    assert_eq!(piece_size(0, 2, 32768, 40000), 32768);
    assert_eq!(piece_size(1, 2, 32768, 40000), 40000 - 32768);
    assert_eq!(piece_offset(3, 1000), 3000);
    assert_eq!(piece_offset(1, 1 << 32), 0);
}

#[test]
fn sha1_digest_and_hash_check() {
    assert_eq!(info_hash(b"abc"), ABC_SHA1);
    assert!(piece_hash_matches(b"abc", &ABC_SHA1));
    assert!(!piece_hash_matches(b"abd", &ABC_SHA1));
    let id = ClientIdentity::new(b"abc");
    assert_eq!(id.info_hash, ABC_SHA1);
    assert_eq!(id.peer_id.len(), 20);
}

#[test]
fn urlencode_every_byte() {
    let mut t = [0u8; 20];
    t[0] = 0xab;
    t[1] = b'A';
    let s = urlencode(&t);
    assert_eq!(s.len(), 60);
    assert!(s.starts_with("%ab%41%00"));
}

#[test]
fn tracker_query_text() {
    let q = tracker_query(&[1u8; 20], b"-TC0001-12345678 9/A");
    let expected = format!("info_hash={}&peer_id=-TC0001-12345678%209%2FA", "%01".repeat(20));
    assert_eq!(q, expected);
}

#[test]
fn interested_frame_bytes() {
    assert_eq!(interested_frame(), vec![0, 0, 0, 1, 2]);
}

#[test]
fn download_state_tracks_missed_parts() {
    let mut state = DownloadState::new("file.iso", 5);
    assert_eq!(state.get_missed_parts(), vec![0, 1, 2, 3, 4]);
    state.update(3);
    state.update(0);
    assert!(state.is_recived(&3));
    assert!(!state.is_recived(&1));
    assert_eq!(state.get_missed_parts(), vec![1, 2, 4]);
    assert_eq!(state.file_name(), "file.iso");
    assert_eq!(state.total(), 5);
    assert_eq!(state.recived(), &vec![3, 0]);
    assert_eq!(DownloadState::new("x", 0).get_missed_parts(), Vec::<usize>::new());
    let restored = DownloadState::from_parts("x".to_string(), 3, vec![1]);
    assert_eq!(restored.get_missed_parts(), vec![0, 2]);
}

fn one_piece_worker(data: &[u8]) -> PeerWorker {
    PeerWorker::new(16384, 16384, vec![info_hash(data)])
}

#[test]
fn worker_downloads_a_piece() {
    let data = vec![7u8; 16384];
    let mut w = one_piece_worker(&data);
    let mut needed: HashSet<usize> = [0usize].into_iter().collect();

    assert!(matches!(w.step(&mut needed), WorkerAction::ReadFrame));
    assert!(w.on_frame(Message::Bitfield(Bitfield::from_payload(vec![0x80]))).is_none());
    assert!(matches!(w.step(&mut needed), WorkerAction::Continue));
    assert!(matches!(w.state, PeerState::Interested));
    assert_eq!(w.available, vec![0]);
    match w.step(&mut needed) {
        WorkerAction::SendInterested(frame) => assert_eq!(frame, vec![0, 0, 0, 1, 2]),
        other => panic!("unexpected {:?}", other),
    }
    assert!(w.on_frame(Message::Unchoke).is_none());
    assert!(!w.step_aborts(&needed));
    assert!(matches!(w.step(&mut needed), WorkerAction::Continue));
    assert!(needed.is_empty());
    assert_eq!(w.pindex, Some(0));
    assert_eq!(w.all_blocks.len(), 16384);
    match w.step(&mut needed) {
        WorkerAction::SendRequests(frames) => {
            assert_eq!(frames.len(), 1);
            assert_eq!(frames[0], vec![0, 0, 0, 13, 6, 0, 0, 0, 0, 0, 0, 0, 0, 0, 0, 0x40, 0]);
        }
        other => panic!("unexpected {:?}", other),
    }
    assert!(matches!(w.state, PeerState::Awaiting(0, 1)));
    let piece = Message::Piece { piece_index: 0, offset: 0, data: BlockData::from(data.clone()) };
    assert!(!w.frame_aborts(&piece));
    assert!(w.on_frame(piece).is_none());
    assert!(matches!(w.state, PeerState::Finished(0)));
    match w.step(&mut needed) {
        WorkerAction::Deliver { piece_index, data: got } => {
            assert_eq!(piece_index, 0);
            assert_eq!(got, data);
        }
        other => panic!("unexpected {:?}", other),
    }
}

#[test]
fn worker_rejects_bad_hash_and_empty_peers() {
    let mut w = one_piece_worker(b"something else");
    let mut needed: HashSet<usize> = HashSet::new();
    w.on_frame(Message::Bitfield(Bitfield::from_payload(vec![0x80])));
    assert!(matches!(w.step(&mut needed), WorkerAction::Stop(FooError::Empty)));

    needed.insert(0);
    w.step(&mut needed);
    w.on_frame(Message::Unchoke);
    w.step(&mut needed);
    w.step(&mut needed);
    w.on_frame(Message::Piece { piece_index: 0, offset: 0, data: BlockData::from(vec![1u8; 16384]) });
    assert!(matches!(w.step(&mut needed), WorkerAction::Stop(FooError::InvalidHash)));
}

#[test]
fn worker_choke_and_checks() {
    let mut w = one_piece_worker(b"x");
    assert!(matches!(w.on_frame(Message::Choke), Some(FooError::Choke)));
    assert!(w.frame_aborts(&Message::Interested));
    let too_long = Message::Piece { piece_index: 0, offset: 0, data: BlockData::from(vec![1]) };
    assert!(w.frame_aborts(&too_long));
    w.on_frame(Message::Unchoke);
    assert!(w.step_aborts(&HashSet::new()));
}

#[test]
fn worker_retry_policy() {
    let w = PeerWorker::new(16384, 16384, vec![[0; 20]]);
    let mut needed: HashSet<usize> = HashSet::new();
    let mut count = 1;
    assert!(w.after_session(&Ok(()), &mut count, &mut needed));
    assert!(!w.after_session(&Err(FooError::Empty), &mut count, &mut needed));
    assert!(w.after_session(&Err(FooError::Choke), &mut count, &mut needed));
    assert_eq!(count, 1);
    assert!(w.after_session(&Err(FooError::InvalidHash), &mut count, &mut needed));
    assert_eq!(count, 2);
    let mut count = 6;
    assert!(!w.after_session(&Err(FooError::Unknown), &mut count, &mut needed));

    let mut w = one_piece_worker(&[7u8; 16384]);
    let mut needed: HashSet<usize> = [0usize].into_iter().collect();
    w.on_frame(Message::Bitfield(Bitfield::from_payload(vec![0x80])));
    w.step(&mut needed);
    w.on_frame(Message::Unchoke);
    w.step(&mut needed);
    assert!(needed.is_empty());
    let mut count = 1;
    let io = std::io::Error::new(std::io::ErrorKind::Other, "reset");
    assert!(w.after_session(&Err(FooError::from(io)), &mut count, &mut needed));
    assert!(needed.contains(&0));
}

#[test]
fn delivery_outcomes() {
    assert!(delivery_outcome(Some(Some(3))).is_ok());
    assert!(matches!(delivery_outcome(Some(None)), Err(FooError::Unknown)));
    assert!(matches!(delivery_outcome(None), Err(FooError::Unknown)));
}

#[test]
fn piece_download_flow() {
    let data: Vec<u8> = (0..40000u32).map(|i| (i % 251) as u8).collect();
    let hashes = vec![[0u8; 20], info_hash(&data[32768..])];
    let mut d = PieceDownload::new(1, 40000, 32768, hashes);
    assert_eq!(d.all_blocks.len(), 40000 - 32768);
    assert_eq!(d.blocks.len(), 2);
    let step = d.on_frame(Message::Unchoke);
    assert_eq!(step.requests.len(), 2);
    assert!(step.completion.is_none());
    let step = d.on_frame(Message::Choke);
    assert!(step.requests.is_empty());
    let piece = &data[32768..];
    let step = d.on_frame(Message::Piece {
        piece_index: 1,
        offset: 0,
        data: BlockData::from(piece[..4000].to_vec()),
    });
    assert!(step.requests.is_empty());
    assert!(step.completion.is_none());
    let last = Message::Piece { piece_index: 1, offset: 4000, data: BlockData::from(piece[4000..].to_vec()) };
    assert!(!d.frame_aborts(&last));
    let step = d.on_frame(last);
    match step.completion {
        Some(Ok(bytes)) => assert_eq!(bytes, piece.to_vec()),
        _ => panic!("expected a checked piece"),
    }
}

#[test]
fn piece_download_asks_one_more_block_per_block() {
    let mut d = PieceDownload::new(0, 16384 * 8, 16384 * 8, vec![[0u8; 20]]);
    assert_eq!(d.blocks.len(), 8);
    assert_eq!(d.on_frame(Message::Unchoke).requests.len(), 5);
    let step = d.on_frame(Message::Piece { piece_index: 0, offset: 0, data: BlockData::from(vec![1]) });
    assert_eq!(step.requests, vec![piece_wrapper(&d.blocks[5])]);
    assert_eq!(d.count, 6);
    assert!(d.frame_aborts(&Message::Have { piece_index: 0 }));
}

#[test]
fn piece_download_bad_hash() {
    let mut d = PieceDownload::new(0, 10, 16384, vec![[0u8; 20]]);
    assert_eq!(d.blocks.len(), 1);
    let step = d.on_frame(Message::Piece { piece_index: 0, offset: 0, data: BlockData::from(vec![0; 10]) });
    assert!(matches!(step.completion, Some(Err(FooError::InvalidHash))));
}

#[test]
fn tracker_url_text() {
    let url = torrent_client::client::tracker_url(
        "http://tracker.example.com:6969/announce",
        &[1u8; 20],
        b"-TC0001-123456789012",
        1234,
    )
    .unwrap();
    let expected = format!(
        "http://tracker.example.com:6969/announce?info_hash={}&peer_id=-TC0001-123456789012&port=6881&uploaded=0&downloaded=0&compact=1&left=1234",
        "%01".repeat(20)
    );
    assert_eq!(url, expected);
    assert!(torrent_client::client::tracker_url("not a url", &[0u8; 20], &[0u8; 20], 0).is_none());
}

#[test]
fn attempts_are_counted() {
    let mut count: usize = 0;
    torrent_client::worker::start_attempt(&mut count);
    torrent_client::worker::start_attempt(&mut count);
    assert_eq!(count, 2);
}
