//! The tracker's settings.

use vstd::prelude::*;

verus! {

/// The settings that the stores are asked about.
#[derive(Clone, Copy, Debug)]
pub struct Config {
    /// Whether a peer has to be connectable to be handed out.
    pub require_peer_connectivity: bool,
    /// The percentage of the torrent size at which a user's upload is capped
    /// on torrents with upload cap enabled. 0 disables the cap.
    pub upload_cap_threshold: u64,
}

} // verus!
