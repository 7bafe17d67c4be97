# tracker_store

The in-memory torrent store of a BitTorrent tracker, verified with Verus: the
torrents, the peers in each swarm, and each user's total upload on torrents
with an upload cap.

- `src/store/` holds the stores. Each is an insertion-ordered map, and is known
  to the proofs by the sequence of its entries (`entries.rs`). What is taken on
  trust of the `indexmap` crate stands in `index_map.rs`; what holds of totals,
  cap flags and loading stands in `laws.rs`.
- `src/api/` holds what requests do to the stores, with its own `laws.rs`.
- `app/` holds the HTTP handlers and the database queries around the library.
