//! The values that the stores carry.

use vstd::prelude::*;

verus! {

/// The id that a client gives itself.
#[derive(Clone, Copy, Debug, PartialEq, Eq, Hash)]
pub struct PeerId(pub [u8; 20]);

/// The hash that names a torrent's content.
#[derive(Clone, Copy, Debug, PartialEq, Eq, Hash)]
pub struct InfoHash(pub [u8; 20]);

/// A torrent's moderation status, by its number in the database.
#[derive(Clone, Copy, Debug, PartialEq, Eq)]
pub struct TorrentStatus(pub i16);

impl Default for TorrentStatus {
    fn default() -> (status: TorrentStatus)
        ensures
            status == TorrentStatus(0),
    {
        TorrentStatus(0)
    }
}

/// An IP address, as its octets.
#[derive(Clone, Copy, Debug, PartialEq, Eq)]
pub enum IpAddr {
    V4([u8; 4]),
    V6([u8; 16]),
}

/// A moment in UTC: whole seconds since the Unix epoch, and the nanoseconds
/// after them.
#[derive(Clone, Copy, Debug, PartialEq, Eq)]
pub struct Timestamp {
    pub seconds: i64,
    pub nanoseconds: u32,
}

} // verus!
