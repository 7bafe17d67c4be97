//! The in-memory torrent store of a BitTorrent tracker: the torrents, the
//! peers in each swarm, and each user's total upload on the torrents that cap
//! it.

pub mod api;
pub mod config;
pub mod model;
pub mod store;
