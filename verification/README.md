# torrent_client

A BitTorrent download client. The library (`src/`) holds the peer wire
format (frame parsing, handshakes, block requests), the block plan of a
piece, the download bookkeeping, the torrent and tracker data, and the two
per-peer download state machines; each function carries a contract proved by
Verus, and the laws that tie the functions together are proof functions next
to them. The application (`app/`) reads the torrent file, talks to the
tracker and to peers over the network, writes pieces to disk and runs the
state machines in tokio tasks.

Modules: `wire` (big-endian integers, decimal text), `bitfield`, `message`
(frames and their parsing rule), `handshake`, `piece`, `client` (requests,
block plans, hashes, tracker query), `worker` (the session that picks pieces
itself), `fetch` (the download of one requested piece), `peer` (the frame
buffer of a connection), `download` (which pieces are written), `torrent`.
