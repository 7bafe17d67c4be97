//! What the tracker's API does to the stores.

pub mod laws;
pub mod torrent;
