//! A BitTorrent download client: wire formats, piece bookkeeping and the
//! per-peer download state machines, with their contracts proved by Verus.
//! The network, disk and task plumbing lives in the application crate.

pub mod bitfield;
pub mod wire;
pub mod piece;
pub mod message;
pub mod handshake;
pub mod client;
pub mod worker;
pub mod fetch;
pub mod download;
pub mod torrent;
pub mod peer;
