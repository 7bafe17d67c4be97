//! Tests for tracking each user's total upload on a torrent and keeping
//! the cached `is_upload_capped` flag on their peers correct, and for the store
//! of the torrents.
//!
//! Unless they say otherwise, the tests use a 10 GiB torrent, so a 500%
//! threshold is reached at 50 GiB of total upload.

use tracker_store::model::{IpAddr, PeerId, Timestamp, TorrentStatus};
use tracker_store::store::peer::{Index, Peer};
use tracker_store::store::torrent::{
    DBImportPeer, DBImportTorrent, DBImportUploadTotal, Torrent, TorrentStore,
};
use tracker_store::store::upload_total::{DBUploadTotal, UploadTotalStore};

const GIB: u64 = 1 << 30;

fn now() -> Timestamp {
    let now = chrono::Utc::now();

    Timestamp {
        seconds: now.timestamp(),
        nanoseconds: now.timestamp_subsec_nanos(),
    }
}

/// Builds an active seed with the given cap flag.
fn make_peer(is_upload_capped: bool) -> Peer {
    Peer {
        ip_address: IpAddr::V4([127, 0, 0, 1]),
        port: 6881,
        is_seeder: true,
        is_active: true,
        is_visible: true,
        is_connectable: true,
        has_sent_completed: false,
        updated_at: now(),
        uploaded: 0,
        downloaded: 0,
        is_upload_capped,
    }
}

/// Builds a peer index. `peer_byte` fills the peer id, so different
/// bytes give different clients of the same user.
fn index(user_id: u32, peer_byte: u8) -> Index {
    Index {
        user_id,
        peer_id: PeerId([peer_byte; 20]),
    }
}

/// 10 GiB torrent with upload cap enabled.
fn upload_capped_torrent() -> Torrent {
    Torrent {
        size: 10 * GIB,
        upload_cap: true,
        ..Default::default()
    }
}

/// Reads the cached cap flag of a peer that must exist.
fn is_capped(torrent: &Torrent, index: Index) -> bool {
    torrent
        .peers
        .get(&index)
        .expect("peer must exist in the swarm")
        .is_upload_capped
}

/// Each announce adds its delta to the stored total, the same way the
/// history queue adds to `history.actual_uploaded`.
#[test]
fn record_upload_accumulates_total() {
    let mut torrent = upload_capped_torrent();
    torrent.peers.insert(index(1, 1), make_peer(false));

    torrent.record_upload(1, PeerId([1; 20]), 3 * GIB, 500);
    torrent.record_upload(1, PeerId([1; 20]), 4 * GIB, 500);

    assert_eq!(
        torrent.upload_totals.get(&1),
        Some(&(7 * GIB)),
        "the total must be the sum of both deltas"
    );
}

/// Torrents without upload cap must not use memory for totals or
/// cap anyone, however much they upload.
#[test]
fn record_upload_does_nothing_without_upload_cap() {
    let mut torrent = upload_capped_torrent();
    torrent.upload_cap = false;
    torrent.peers.insert(index(1, 1), make_peer(false));

    let capped = torrent.record_upload(1, PeerId([1; 20]), 100 * GIB, 500);

    assert!(!capped, "the user must not be reported as capped");
    assert!(
        torrent.upload_totals.is_empty(),
        "no total must be stored for a torrent without upload cap"
    );
    assert!(
        !is_capped(&torrent, index(1, 1)),
        "the peer's cap flag must stay unset"
    );
}

/// Leechers announce with a zero delta all the time. Storing a 0 entry
/// for each of them would grow the map for nothing.
#[test]
fn record_upload_does_not_store_zero_deltas() {
    let mut torrent = upload_capped_torrent();
    torrent.peers.insert(index(1, 1), make_peer(false));

    torrent.record_upload(1, PeerId([1; 20]), 0, 500);

    assert!(
        torrent.upload_totals.is_empty(),
        "an announce without upload must not create a total"
    );
}

/// 49 GiB on a 10 GiB torrent is 490%, below the 500% threshold.
#[test]
fn record_upload_below_threshold_is_not_capped() {
    let mut torrent = upload_capped_torrent();
    torrent.peers.insert(index(1, 1), make_peer(false));

    let capped = torrent.record_upload(1, PeerId([1; 20]), 49 * GIB, 500);

    assert!(!capped, "490% must not reach a 500% threshold");
    assert!(
        !is_capped(&torrent, index(1, 1)),
        "the peer's cap flag must stay unset below the threshold"
    );
}

/// When one client pushes the user over the threshold, the user's other
/// clients on the torrent must be capped immediately, not only after
/// their own next announce.
#[test]
fn record_upload_caps_all_peers_of_user_when_crossing_threshold() {
    let mut torrent = upload_capped_torrent();
    torrent.peers.insert(index(1, 1), make_peer(false));
    torrent.peers.insert(index(1, 2), make_peer(false));
    torrent.peers.insert(index(2, 3), make_peer(false));

    torrent.record_upload(1, PeerId([1; 20]), 49 * GIB, 500);
    let capped = torrent.record_upload(1, PeerId([1; 20]), GIB, 500);

    assert!(capped, "50 GiB must reach the 500% threshold");
    assert!(
        is_capped(&torrent, index(1, 1)),
        "the announcing client must be capped"
    );
    assert!(
        is_capped(&torrent, index(1, 2)),
        "the user's other client must be capped without announcing"
    );
    assert!(
        !is_capped(&torrent, index(2, 3)),
        "peers of other users must not be touched"
    );
}

/// A user who is already over the threshold from earlier sessions
/// (loaded from `history`) starts a new client. That client must be
/// capped on its very first announce, even without uploading.
#[test]
fn record_upload_uses_existing_total_from_history() {
    let mut torrent = upload_capped_torrent();
    torrent.upload_totals.insert(1, 60 * GIB);
    torrent.peers.insert(index(1, 1), make_peer(false));

    let capped = torrent.record_upload(1, PeerId([1; 20]), 0, 500);

    assert!(capped, "a 60 GiB total from history must reach 500%");
    assert!(
        is_capped(&torrent, index(1, 1)),
        "the new client must be capped on its first announce"
    );
}

/// Simulates a config reload that raised the threshold from 500% to
/// 1000%. The user's total doesn't change, so no threshold is crossed,
/// but the announcing peer's stale flag must still be cleared.
#[test]
fn record_upload_uncaps_after_threshold_is_raised() {
    let mut torrent = upload_capped_torrent();
    torrent.upload_totals.insert(1, 60 * GIB);
    torrent.peers.insert(index(1, 1), make_peer(true));

    let capped = torrent.record_upload(1, PeerId([1; 20]), 0, 1000);

    assert!(!capped, "600% must not reach a 1000% threshold");
    assert!(
        !is_capped(&torrent, index(1, 1)),
        "the stale cap flag must be cleared on announce"
    );
}

/// After a threshold change, the first announce of any client must
/// correct the flag on all of the user's clients.
#[test]
fn record_upload_uncaps_all_peers_of_user_after_threshold_is_raised() {
    let mut torrent = upload_capped_torrent();
    torrent.upload_totals.insert(1, 60 * GIB);
    torrent.peers.insert(index(1, 1), make_peer(true));
    torrent.peers.insert(index(1, 2), make_peer(true));

    torrent.record_upload(1, PeerId([1; 20]), 0, 1000);

    assert!(!is_capped(&torrent, index(1, 2)));
}

/// A torrent sent without a size has size 0. Nobody may be capped,
/// but totals are still tracked so they're correct once the size is
/// sent.
#[test]
fn record_upload_without_size_never_caps() {
    let mut torrent = upload_capped_torrent();
    torrent.size = 0;
    torrent.peers.insert(index(1, 1), make_peer(false));

    let capped = torrent.record_upload(1, PeerId([1; 20]), 100 * GIB, 500);

    assert!(!capped, "a torrent without size must not cap anyone");
    assert_eq!(
        torrent.upload_totals.get(&1),
        Some(&(100 * GIB)),
        "the total must still be tracked without a size"
    );
}

/// Seedtime is accrued in `history` by the flush query, based on the
/// announce's `left` and event, not on anything capping touches. This
/// test guards the tracker side of that: capping must only change
/// `is_upload_capped` and leave every field that decides whether a peer
/// counts as an active, visible seed exactly as it was. Otherwise a
/// capped seed could drop out of the seeder counts or be treated as
/// inactive.
#[test]
fn record_upload_capping_leaves_seeding_state_untouched() {
    let mut torrent = upload_capped_torrent();
    let seed = Peer {
        uploaded: 7,
        downloaded: 3,
        ..make_peer(false)
    };
    // The announcing client and a second client of the same user, which
    // is capped through the threshold-crossing scan
    torrent.peers.insert(index(1, 1), seed);
    torrent.peers.insert(index(1, 2), seed);

    let capped = torrent.record_upload(1, PeerId([1; 20]), 60 * GIB, 500);

    assert!(capped, "60 GiB must reach the 500% threshold");

    for peer_index in [index(1, 1), index(1, 2)] {
        let peer = torrent
            .peers
            .get(&peer_index)
            .expect("capping must not remove the peer from the swarm");

        assert!(peer.is_upload_capped, "the peer must be capped");
        assert!(peer.is_seeder, "a capped seed must stay a seed");
        assert!(peer.is_active, "a capped seed must stay active");
        assert!(peer.is_visible, "a capped seed must stay visible");
        assert!(peer.is_connectable, "capping must not change connectivity");
        assert_eq!(
            peer.updated_at, seed.updated_at,
            "capping must not change the last announce time"
        );
        assert_eq!(
            (peer.uploaded, peer.downloaded),
            (seed.uploaded, seed.downloaded),
            "capping must not change the client's reported counters"
        );
    }
}

/// On a stopped event the peer is removed from the swarm before the
/// upload is recorded. The final delta must still count towards the
/// total, and the missing peer must not cause a panic.
#[test]
fn record_upload_for_stopped_peer_still_updates_total() {
    let mut torrent = upload_capped_torrent();

    let capped = torrent.record_upload(1, PeerId([1; 20]), 60 * GIB, 500);

    assert!(capped, "60 GiB must reach the 500% threshold");
    assert_eq!(
        torrent.upload_totals.get(&1),
        Some(&(60 * GIB)),
        "the stopped peer's upload must be added to the total"
    );
}

/// Runs on startup and on API upserts: every peer's flag is recomputed
/// from the stored totals, overwriting whatever it was before.
#[test]
fn refresh_upload_caps_sets_flags_from_totals() {
    let mut torrent = upload_capped_torrent();
    torrent.upload_totals.insert(1, 50 * GIB);
    torrent.upload_totals.insert(2, 10 * GIB);
    torrent.peers.insert(index(1, 1), make_peer(false));
    torrent.peers.insert(index(2, 2), make_peer(true));
    torrent.peers.insert(index(3, 3), make_peer(true));

    torrent.refresh_upload_caps(500);

    assert!(
        is_capped(&torrent, index(1, 1)),
        "exactly 500% must be capped"
    );
    assert!(
        !is_capped(&torrent, index(2, 2)),
        "100% must be uncapped, even if the flag was set before"
    );
    assert!(
        !is_capped(&torrent, index(3, 3)),
        "a user without a stored total must be uncapped"
    );
}

/// `UPLOAD_CAP_THRESHOLD=0` disables withholding, so a refresh
/// must clear every flag.
#[test]
fn refresh_upload_caps_with_zero_threshold_uncaps_everyone() {
    let mut torrent = upload_capped_torrent();
    torrent.upload_totals.insert(1, 100 * GIB);
    torrent.peers.insert(index(1, 1), make_peer(true));

    torrent.refresh_upload_caps(0);

    assert!(
        !is_capped(&torrent, index(1, 1)),
        "a threshold of 0 must clear the cap flag"
    );
}

/// A total that would not fit stays at the largest one.
#[test]
fn record_upload_saturates() {
    let mut torrent = upload_capped_torrent();
    torrent.upload_totals.insert(1, u64::MAX - 1);

    assert!(torrent.record_upload(1, PeerId([1; 20]), 5, 500));

    assert_eq!(torrent.upload_totals.get(&1), Some(&u64::MAX));
}

/// Uploads of several users and clients add up per user.
#[test]
fn record_upload_adds_up_per_user() {
    let mut torrent = upload_capped_torrent();

    torrent.record_upload(1, PeerId([1; 20]), 3, 500);
    torrent.record_upload(2, PeerId([2; 20]), 5, 100);
    torrent.record_upload(1, PeerId([3; 20]), 4, 0);
    torrent.record_upload(2, PeerId([2; 20]), 0, 500);

    assert_eq!(torrent.upload_totals.get(&1), Some(&7));
    assert_eq!(torrent.upload_totals.get(&2), Some(&5));
}

/// Whichever of the user's clients announces, and whether or not its own flag
/// was right, the flags of all of them are right afterwards.
#[test]
fn record_upload_corrects_every_client_of_the_user() {
    let mut torrent = upload_capped_torrent();
    torrent.peers.insert(index(1, 1), make_peer(false));
    torrent.peers.insert(index(1, 2), make_peer(true));
    torrent.peers.insert(index(2, 3), make_peer(true));

    assert!(!torrent.record_upload(1, PeerId([1; 20]), 1, 500));

    assert!(!is_capped(&torrent, index(1, 1)));
    assert!(!is_capped(&torrent, index(1, 2)));
    assert!(
        is_capped(&torrent, index(2, 3)),
        "peers of other users must not be touched"
    );
}

/// After the threshold was raised, a new client of the user, whose own flag is
/// right, announces. The flag of the user's old client must be cleared.
#[test]
fn record_upload_of_a_new_client_uncaps_old_ones_after_threshold_is_raised() {
    let mut torrent = upload_capped_torrent();
    torrent.upload_totals.insert(1, 60 * GIB);
    torrent.peers.insert(index(1, 1), make_peer(true));
    torrent.peers.insert(index(1, 2), make_peer(false));

    assert!(!torrent.record_upload(1, PeerId([2; 20]), 0, 1000));

    assert!(!is_capped(&torrent, index(1, 1)));
    assert!(!is_capped(&torrent, index(1, 2)));
}

/// The same holds where the announcing client was stopped and is no longer in
/// the swarm.
#[test]
fn record_upload_of_a_stopped_client_corrects_the_others() {
    let mut torrent = upload_capped_torrent();
    torrent.upload_totals.insert(1, 60 * GIB);
    torrent.peers.insert(index(1, 1), make_peer(true));

    assert!(!torrent.record_upload(1, PeerId([9; 20]), 0, 1000));
    assert!(!is_capped(&torrent, index(1, 1)));

    assert!(torrent.record_upload(1, PeerId([9; 20]), 0, 500));
    assert!(is_capped(&torrent, index(1, 1)));
}

/// Correct flags stay correct through any number of uploads under one
/// threshold.
#[test]
fn record_upload_keeps_flags_current() {
    let mut torrent = upload_capped_torrent();
    torrent.peers.insert(index(1, 1), make_peer(false));
    torrent.peers.insert(index(1, 2), make_peer(false));
    torrent.peers.insert(index(2, 1), make_peer(false));

    for (user_id, gibs) in [(1, 20), (2, 49), (1, 29), (2, 1), (1, 1)] {
        let capped = torrent.record_upload(user_id, PeerId([1; 20]), gibs * GIB, 500);

        assert_eq!(is_capped(&torrent, index(user_id, 1)), capped);
        for place in 0..torrent.peers.len() {
            let (index, peer) = torrent.peers.get_index(place).unwrap();
            let total = torrent.upload_totals.get(&index.user_id).copied().unwrap_or(0);

            assert_eq!(peer.is_upload_capped, total >= 50 * GIB);
        }
    }
}

/// Recomputing flags that are correct changes nothing, and recomputing them
/// never changes anything but the flags.
#[test]
fn refresh_upload_caps_is_idempotent() {
    let mut torrent = upload_capped_torrent();
    torrent.upload_totals.insert(1, 50 * GIB);
    torrent.peers.insert(index(1, 1), Peer { port: 1, ..make_peer(false) });
    torrent.peers.insert(index(2, 2), Peer { port: 2, ..make_peer(true) });

    for _ in 0..2 {
        torrent.refresh_upload_caps(500);

        assert!(is_capped(&torrent, index(1, 1)));
        assert!(!is_capped(&torrent, index(2, 2)));
        assert_eq!(torrent.peers.len(), 2);
        assert_eq!(torrent.peers.get_index(0).map(|(_, peer)| peer.port), Some(1));
        assert_eq!(torrent.peers.get_index(1).map(|(_, peer)| peer.port), Some(2));
        assert_eq!(torrent.upload_totals.get(&1), Some(&(50 * GIB)));
    }
}

#[test]
fn refresh_upload_caps_without_size_uncaps_everyone() {
    let mut torrent = upload_capped_torrent();
    torrent.size = 0;
    torrent.upload_totals.insert(1, 100 * GIB);
    torrent.peers.insert(index(1, 1), make_peer(true));

    torrent.refresh_upload_caps(500);

    assert!(!is_capped(&torrent, index(1, 1)));
}

/// The peers that a torrent with upload cap withholds are those of users over
/// the cap.
#[test]
fn users_over_the_cap_are_withheld() {
    let mut torrent = upload_capped_torrent();
    torrent.peers.insert(index(1, 1), make_peer(false));
    torrent.peers.insert(index(2, 2), make_peer(false));
    torrent.record_upload(1, PeerId([1; 20]), 50 * GIB, 500);

    let withheld = |torrent: &Torrent, index| {
        torrent.peers.get(&index).unwrap().is_withheld(torrent.upload_cap)
    };
    assert!(withheld(&torrent, index(1, 1)));
    assert!(!withheld(&torrent, index(2, 2)));

    torrent.upload_cap = false;
    assert!(!withheld(&torrent, index(1, 1)));
}

fn torrent_with_size(size: u64) -> Torrent {
    Torrent {
        size,
        ..Default::default()
    }
}

fn size_of(store: &TorrentStore, id: u32) -> Option<u64> {
    store.get(&id).map(|torrent| torrent.size)
}

/// The ids of the torrents, in the order of the store.
fn ids(store: &TorrentStore) -> Vec<u32> {
    (0..store.len())
        .filter_map(|place| store.get_index(place))
        .map(|(id, _)| id)
        .collect()
}

#[test]
fn torrents_are_kept_by_id() {
    let mut store = TorrentStore::new();
    assert_eq!(store.len(), 0);
    assert!(store.get(&1).is_none());
    assert!(store.get_mut(&1).is_none());
    assert!(store.get_index(0).is_none());

    assert!(store.insert(1, torrent_with_size(10)).is_none());
    assert!(store.insert(2, torrent_with_size(20)).is_none());
    let replaced = store.insert(1, torrent_with_size(11));

    assert_eq!(replaced.map(|torrent| torrent.size), Some(10));
    assert_eq!(ids(&store), vec![1, 2]);
    assert_eq!(store.len(), 2);
    assert_eq!(size_of(&store, 1), Some(11));
    assert_eq!(size_of(&store, 2), Some(20));

    store.get_mut(&2).unwrap().size = 21;
    assert_eq!(size_of(&store, 1), Some(11));
    assert_eq!(size_of(&store, 2), Some(21));
}

#[test]
fn removed_torrents_are_gone() {
    let mut store = TorrentStore::new();
    for id in [1, 2, 3] {
        store.insert(id, torrent_with_size(u64::from(id)));
    }

    assert!(store.swap_remove(&9).is_none());
    assert_eq!(store.swap_remove(&1).map(|torrent| torrent.size), Some(1));

    assert_eq!(store.len(), 2);
    assert_eq!(ids(&store), vec![3, 2], "the last torrent must move into the gap");
    assert_eq!(size_of(&store, 1), None);
    assert_eq!(size_of(&store, 2), Some(2));
    assert_eq!(size_of(&store, 3), Some(3));
}

#[test]
fn cloned_torrents_are_independent() {
    let mut torrent = upload_capped_torrent();
    torrent.peers.insert(index(1, 1), make_peer(false));
    torrent.upload_totals.insert(1, 7);

    let mut copy = torrent.clone();
    copy.record_upload(1, PeerId([1; 20]), 50 * GIB, 500);

    assert_eq!(copy.size, 10 * GIB);
    assert!(is_capped(&copy, index(1, 1)));
    assert!(!is_capped(&torrent, index(1, 1)));
    assert_eq!(torrent.upload_totals.get(&1), Some(&7));
}

fn torrent_row(id: u32, upload_cap: bool) -> DBImportTorrent {
    DBImportTorrent {
        id,
        status: TorrentStatus(1),
        seeders: 2,
        leechers: 3,
        times_completed: 4,
        download_factor: 50,
        upload_factor: 200,
        is_deleted: false,
        size: 10 * GIB,
        upload_cap,
    }
}

fn total_row(torrent_id: u32, user_id: u32, gibs: u64) -> DBImportUploadTotal {
    DBImportUploadTotal {
        user_id,
        torrent_id,
        actual_uploaded: gibs * GIB,
    }
}

fn peer_row(torrent_id: u32, user_id: u32, peer_byte: u8) -> DBImportPeer {
    DBImportPeer {
        ip_address: Some(IpAddr::V4([10, 0, 0, 1])),
        user_id,
        torrent_id,
        port: 51413,
        is_seeder: false,
        is_active: true,
        is_visible: true,
        is_connectable: false,
        updated_at: Some(Timestamp { seconds: 1_700_000_000, nanoseconds: 5 }),
        uploaded: 8,
        downloaded: 9,
        peer_id: PeerId([peer_byte; 20]),
    }
}

/// Torrents, totals and peers come together, and the flags are set where the
/// torrent has upload cap.
#[test]
fn store_is_loaded_from_rows() {
    let store = TorrentStore::from_db(
        &[torrent_row(5, true), torrent_row(3, false)],
        &[total_row(5, 1, 50), total_row(5, 2, 49)],
        &[peer_row(5, 1, 1), peer_row(5, 2, 1), peer_row(3, 1, 1), peer_row(5, 1, 2)],
        500,
    );

    assert_eq!(ids(&store), vec![5, 3]);
    let capped = store.get(&5).unwrap();
    assert_eq!(capped.id, 5);
    assert_eq!(capped.status, TorrentStatus(1));
    assert_eq!((capped.seeders, capped.leechers, capped.times_completed), (2, 3, 4));
    assert_eq!((capped.download_factor, capped.upload_factor), (50, 200));
    assert!(!capped.is_deleted);
    assert_eq!(capped.upload_totals.get(&1), Some(&(50 * GIB)));
    assert_eq!(capped.upload_totals.get(&2), Some(&(49 * GIB)));
    assert!(is_capped(capped, index(1, 1)));
    assert!(is_capped(capped, index(1, 2)));
    assert!(!is_capped(capped, index(2, 1)));
    assert_eq!(capped.peers.len(), 3);

    let peer = capped.peers.get(&index(2, 1)).unwrap();
    assert_eq!(peer.ip_address, IpAddr::V4([10, 0, 0, 1]));
    assert_eq!(peer.port, 51413);
    assert!(!peer.is_seeder && peer.is_active && peer.is_visible && !peer.is_connectable);
    assert!(!peer.has_sent_completed);
    assert_eq!(peer.updated_at, Timestamp { seconds: 1_700_000_000, nanoseconds: 5 });
    assert_eq!((peer.uploaded, peer.downloaded), (8, 9));

    let uncapped = store.get(&3).unwrap();
    assert!(uncapped.upload_totals.is_empty());
    assert!(!is_capped(uncapped, index(1, 1)));
}

/// Rows about torrents that were not loaded are passed over, even where they
/// are incomplete.
#[test]
fn rows_of_unknown_torrents_are_passed_over() {
    let incomplete = DBImportPeer {
        ip_address: None,
        updated_at: None,
        ..peer_row(9, 1, 1)
    };
    let store = TorrentStore::from_db(
        &[torrent_row(5, true)],
        &[total_row(9, 1, 1)],
        &[incomplete],
        500,
    );

    assert_eq!(store.len(), 1);
    assert!(store.get(&9).is_none());
    assert!(store.get(&5).unwrap().upload_totals.is_empty());
    assert_eq!(store.get(&5).unwrap().peers.len(), 0);
}

/// Of several rows about the same thing, the last one counts.
#[test]
fn last_row_of_each_counts() {
    let later = DBImportTorrent { seeders: 77, ..torrent_row(5, true) };
    let store = TorrentStore::from_db(
        &[torrent_row(5, false), torrent_row(6, false), later],
        &[total_row(5, 1, 60), total_row(5, 1, 1)],
        &[peer_row(5, 1, 1), DBImportPeer { port: 1, ..peer_row(5, 1, 1) }],
        500,
    );

    let torrent = store.get(&5).unwrap();
    assert_eq!(store.len(), 2);
    assert_eq!(torrent.seeders, 77);
    assert!(torrent.upload_cap);
    assert_eq!(torrent.upload_totals.get(&1), Some(&GIB));
    assert_eq!(torrent.peers.len(), 1);
    assert_eq!(torrent.peers.get(&index(1, 1)).unwrap().port, 1);
    assert!(!is_capped(torrent, index(1, 1)));
}

/// An upload on one torrent of the store sets the flags there and nowhere
/// else.
#[test]
fn record_upload_in_the_store_leaves_other_torrents_alone() {
    let mut store = TorrentStore::from_db(
        &[torrent_row(5, true), torrent_row(6, true)],
        &[total_row(5, 1, 49), total_row(6, 1, 49)],
        &[peer_row(5, 1, 1), peer_row(6, 1, 1)],
        500,
    );

    let torrent = store.get_mut(&5).unwrap();
    assert!(torrent.record_upload(1, PeerId([1; 20]), GIB, 500));

    assert!(is_capped(store.get(&5).unwrap(), index(1, 1)));
    assert!(!is_capped(store.get(&6).unwrap(), index(1, 1)));
    assert_eq!(store.get(&6).unwrap().upload_totals.get(&1), Some(&(49 * GIB)));
}

/// A torrent's totals are the same whether they are loaded with all torrents
/// or alone.
#[test]
fn both_ways_of_loading_give_the_same_totals() {
    let store = TorrentStore::from_db(
        &[torrent_row(5, true), torrent_row(6, true)],
        &[total_row(5, 1, 7), total_row(6, 1, 8), total_row(5, 2, 9)],
        &[],
        500,
    );
    let alone = UploadTotalStore::from_db(&[
        DBUploadTotal { user_id: 2, actual_uploaded: 9 * GIB },
        DBUploadTotal { user_id: 1, actual_uploaded: 7 * GIB },
    ]);

    let together = &store.get(&5).unwrap().upload_totals;
    for user_id in [1, 2, 3] {
        assert_eq!(together.get(&user_id), alone.get(&user_id));
    }
    assert_eq!(together.get(&2), Some(&(9 * GIB)));
}
