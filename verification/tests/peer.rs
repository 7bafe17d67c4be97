//! Tests for the peer lists, for `Peer::is_withheld`, which combines the
//! torrent-level switch with the peer's cached cap flag, and for the swarm.

use tracker_store::config::Config;
use tracker_store::model::{IpAddr, PeerId, Timestamp};
use tracker_store::store::peer::{Index, Peer, PeerStore};

fn now() -> Timestamp {
    let now = chrono::Utc::now();

    Timestamp {
        seconds: now.timestamp(),
        nanoseconds: now.timestamp_subsec_nanos(),
    }
}

/// Builds an active, visible, connectable seed with the given cap flag.
fn make_peer(is_upload_capped: bool) -> Peer {
    Peer {
        ip_address: IpAddr::V4([127, 0, 0, 1]),
        port: 6881,
        is_seeder: true,
        is_active: true,
        is_visible: true,
        is_connectable: true,
        has_sent_completed: false,
        updated_at: now(),
        uploaded: 0,
        downloaded: 0,
        is_upload_capped,
    }
}

fn index(user_id: u32, peer_byte: u8) -> Index {
    Index {
        user_id,
        peer_id: PeerId([peer_byte; 20]),
    }
}

fn config(require_peer_connectivity: bool) -> Config {
    Config {
        require_peer_connectivity,
        upload_cap_threshold: 500,
    }
}

/// A capped peer on a torrent with upload priority enabled is left out
/// of peer lists.
#[test]
fn capped_peer_is_withheld_when_torrent_withholds() {
    assert!(
        make_peer(true).is_withheld(true),
        "a capped peer must be withheld when the torrent withholds capped peers"
    );
}

/// The cap flag can be stale after upload priority is switched off for
/// a torrent. It must then be ignored.
#[test]
fn capped_peer_is_not_withheld_when_torrent_does_not_withhold() {
    assert!(
        !make_peer(true).is_withheld(false),
        "a stale cap flag must be ignored when the torrent doesn't withhold"
    );
}

/// A peer below the cap is always handed out, whatever the torrent
/// setting is.
#[test]
fn uncapped_peer_is_never_withheld() {
    assert!(
        !make_peer(false).is_withheld(true),
        "an uncapped peer must not be withheld on a torrent that withholds"
    );
    assert!(
        !make_peer(false).is_withheld(false),
        "an uncapped peer must not be withheld on a torrent that doesn't withhold"
    );
}

#[test]
fn peer_list_needs_an_active_visible_peer() {
    let peer = make_peer(false);
    let inactive = Peer { is_active: false, ..peer };
    let invisible = Peer { is_visible: false, ..peer };

    for config in [config(false), config(true)] {
        assert!(peer.is_included_in_peer_list(&config));
        assert!(!inactive.is_included_in_peer_list(&config));
        assert!(!invisible.is_included_in_peer_list(&config));
    }
}

#[test]
fn peer_list_needs_connectivity_where_it_is_required() {
    let peer = Peer { is_connectable: false, ..make_peer(false) };

    assert!(peer.is_included_in_peer_list(&config(false)));
    assert!(!peer.is_included_in_peer_list(&config(true)));
}

/// A listed peer is a seed or a leech, and an unlisted one is neither.
#[test]
fn seeds_and_leeches_divide_the_peer_list() {
    let config = config(true);
    let seed = make_peer(false);
    let leech = Peer { is_seeder: false, ..seed };
    let unlisted = Peer { is_connectable: false, ..seed };

    assert!(seed.is_included_in_seed_list(&config));
    assert!(!seed.is_included_in_leech_list(&config));
    assert!(!leech.is_included_in_seed_list(&config));
    assert!(leech.is_included_in_leech_list(&config));
    assert!(!unlisted.is_included_in_seed_list(&config));
    assert!(!unlisted.is_included_in_leech_list(&config));
}

#[test]
fn capping_leaves_the_lists_untouched() {
    let config = config(true);

    assert!(make_peer(true).is_included_in_peer_list(&config));
    assert!(make_peer(true).is_included_in_seed_list(&config));
    assert!(!make_peer(true).is_included_in_leech_list(&config));
}

#[test]
fn peers_are_kept_by_user_and_client_in_their_order() {
    let mut peers = PeerStore::new();
    assert_eq!(peers.len(), 0);
    assert!(peers.get(&index(1, 1)).is_none());
    assert!(peers.get_index(0).is_none());

    let peer = |port| Peer { port, ..make_peer(false) };
    assert!(peers.insert(index(1, 1), peer(11)).is_none());
    assert!(peers.insert(index(1, 2), peer(12)).is_none());
    assert!(peers.insert(index(2, 1), peer(21)).is_none());
    let replaced = peers.insert(index(1, 1), peer(99));

    assert_eq!(replaced.map(|peer| peer.port), Some(11));
    assert_eq!(peers.len(), 3);
    assert_eq!(peers.get(&index(1, 1)).map(|peer| peer.port), Some(99));
    assert_eq!(peers.get(&index(1, 2)).map(|peer| peer.port), Some(12));
    assert_eq!(peers.get(&index(2, 1)).map(|peer| peer.port), Some(21));
    assert!(peers.get(&index(2, 2)).is_none());

    let order: Vec<(Index, u16)> = (0..4)
        .filter_map(|place| peers.get_index(place))
        .map(|(index, peer)| (index, peer.port))
        .collect();
    assert_eq!(
        order,
        vec![(index(1, 1), 99), (index(1, 2), 12), (index(2, 1), 21)]
    );
}

#[test]
fn cloned_peers_are_independent() {
    let mut peers = PeerStore::default();
    peers.insert(index(1, 1), make_peer(false));

    let mut copy = peers.clone();
    copy.insert(index(1, 2), make_peer(false));

    assert_eq!(peers.len(), 1);
    assert_eq!(copy.len(), 2);
    assert!(copy.get(&index(1, 1)).is_some());
}

#[test]
fn index_text_is_user_and_peer_id() {
    assert_eq!(index(0, 1).to_text("abc"), "0-abc");
    assert_eq!(index(7, 1).to_text(""), "7-");
    assert_eq!(index(1900, 1).to_text("x-y"), "1900-x-y");
    assert_eq!(index(u32::MAX, 1).to_text("p"), "4294967295-p");
}
