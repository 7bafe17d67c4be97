//! The stores: each is an insertion-ordered map.

pub mod entries;
pub mod field_laws;
pub mod index_map;
pub mod laws;
pub mod peer;
pub mod torrent;
pub mod upload_total;
