//! Tests for the requests that insert, remove and show torrents.

use tracker_store::api::torrent::{
    begin_upsert, destroy, needs_upload_totals_load, resume_upsert, select_upload_totals, show,
    upsert, APIInsertTorrent, APIRemoveTorrent, StatusCode, UpsertAction,
};
use tracker_store::model::{InfoHash, IpAddr, PeerId, Timestamp, TorrentStatus};
use tracker_store::store::peer::{Index, Peer};
use tracker_store::store::torrent::{Torrent, TorrentStore};
use tracker_store::store::upload_total::UploadTotalStore;

fn torrent_with_upload_cap(upload_cap: bool) -> Torrent {
    Torrent {
        upload_cap,
        ..Default::default()
    }
}

fn totals(user_id: u32, uploaded: u64) -> UploadTotalStore {
    let mut store = UploadTotalStore::new();
    store.insert(user_id, uploaded);
    store
}

#[test]
fn loads_totals_when_upload_cap_is_switched_on() {
    assert!(needs_upload_totals_load(
        true,
        Some(&torrent_with_upload_cap(false))
    ));
    assert!(needs_upload_totals_load(true, None));
    let chosen = select_upload_totals(true, UploadTotalStore::new(), Some(totals(1, 9)));
    assert_eq!(chosen.get(&1), Some(&9));
}

#[test]
fn keeps_in_memory_totals_when_upload_cap_stays_on() {
    assert!(!needs_upload_totals_load(
        true,
        Some(&torrent_with_upload_cap(true))
    ));
    assert_eq!(
        select_upload_totals(true, totals(1, 7), None).get(&1),
        Some(&7)
    );
}

#[test]
fn clears_totals_when_upload_cap_is_switched_off() {
    assert!(!needs_upload_totals_load(
        false,
        Some(&torrent_with_upload_cap(true))
    ));
    assert!(select_upload_totals(false, totals(1, 7), None).is_empty());
}

const INFO_HASH: InfoHash = InfoHash([7; 20]);

fn request(id: u32, upload_cap: bool) -> APIInsertTorrent {
    APIInsertTorrent {
        id,
        status: TorrentStatus(1),
        info_hash: "07".repeat(20),
        is_deleted: false,
        seeders: 1,
        leechers: 2,
        times_completed: 3,
        download_factor: 100,
        upload_factor: 200,
        size: 100,
        upload_cap,
    }
}

fn index(user_id: u32) -> Index {
    Index {
        user_id,
        peer_id: PeerId([1; 20]),
    }
}

fn peer() -> Peer {
    Peer {
        ip_address: IpAddr::V6([1; 16]),
        port: 6881,
        is_seeder: true,
        is_active: true,
        is_visible: true,
        is_connectable: true,
        has_sent_completed: true,
        updated_at: Timestamp { seconds: 1, nanoseconds: 2 },
        uploaded: 3,
        downloaded: 4,
        is_upload_capped: false,
    }
}

/// A store with torrents 1 to 3, each with one peer of user 1.
fn store() -> TorrentStore {
    let mut store = TorrentStore::new();
    for id in 1..4 {
        let mut torrent = Torrent { id, ..Default::default() };
        torrent.peers.insert(index(1), peer());
        store.insert(id, torrent);
    }
    store
}

#[test]
fn upsert_without_a_valid_info_hash_is_a_bad_request() {
    assert!(matches!(
        begin_upsert(&store(), None, &request(1, true)),
        UpsertAction::Respond(StatusCode::BadRequest)
    ));
}

#[test]
fn upsert_asks_for_totals_when_upload_cap_is_switched_on() {
    for id in [1, 9] {
        match begin_upsert(&store(), Some(INFO_HASH), &request(id, true)) {
            UpsertAction::LoadUploadTotals { info_hash, torrent_id } => {
                assert_eq!(info_hash, INFO_HASH);
                assert_eq!(torrent_id, id);
            }
            _ => panic!("totals must be asked for"),
        }
    }
}

#[test]
fn upsert_goes_straight_on_when_no_totals_are_needed() {
    let mut store = store();
    store.get_mut(&2).unwrap().upload_cap = true;

    for request in [request(1, false), request(2, true), request(9, false)] {
        assert!(matches!(
            begin_upsert(&store, Some(INFO_HASH), &request),
            UpsertAction::Replace { info_hash: INFO_HASH, loaded_totals: None }
        ));
    }
}

#[test]
fn upsert_fails_when_totals_cannot_be_loaded() {
    assert!(matches!(
        resume_upsert(INFO_HASH, None),
        UpsertAction::Respond(StatusCode::InternalServerError)
    ));
}

#[test]
fn upsert_goes_on_with_loaded_totals() {
    match resume_upsert(INFO_HASH, Some(totals(1, 9))) {
        UpsertAction::Replace { info_hash, loaded_totals: Some(loaded) } => {
            assert_eq!(info_hash, INFO_HASH);
            assert_eq!(loaded.get(&1), Some(&9));
        }
        _ => panic!("the torrent must be replaced"),
    }
}

/// The new torrent is what the request says, keeps the swarm, and has flags
/// that match the loaded totals. The other torrents stay.
#[test]
fn upsert_replaces_the_torrent_and_keeps_its_swarm() {
    let mut store = store();

    let action = upsert(
        &mut store,
        INFO_HASH,
        &request(1, true),
        Some(totals(1, 500)),
        500,
    );

    match action {
        UpsertAction::Register { info_hash, torrent_id, status } => {
            assert_eq!(info_hash, INFO_HASH);
            assert_eq!(torrent_id, 1);
            assert_eq!(status, StatusCode::Success);
        }
        _ => panic!("the info hash must be registered"),
    }
    let order: Vec<u32> = (0..store.len())
        .filter_map(|place| store.get_index(place))
        .map(|(id, _)| id)
        .collect();
    assert_eq!(order, vec![3, 2, 1]);
    let torrent = store.get(&1).unwrap();
    assert_eq!(torrent.id, 1);
    assert_eq!(torrent.status, TorrentStatus(1));
    assert!(!torrent.is_deleted);
    assert_eq!((torrent.seeders, torrent.leechers, torrent.times_completed), (1, 2, 3));
    assert_eq!((torrent.download_factor, torrent.upload_factor), (100, 200));
    assert_eq!(torrent.size, 100);
    assert!(torrent.upload_cap);
    assert_eq!(torrent.upload_totals.get(&1), Some(&500));
    let kept = torrent.peers.get(&index(1)).unwrap();
    assert!(kept.is_upload_capped);
    assert!(kept.has_sent_completed);
    assert_eq!((kept.uploaded, kept.downloaded), (3, 4));
    assert_eq!(kept.updated_at, peer().updated_at);

    for id in [2, 3] {
        let other = store.get(&id).unwrap();
        assert_eq!(other.id, id);
        assert_eq!(other.size, 0);
        assert_eq!(other.peers.len(), 1);
    }
}

#[test]
fn upsert_of_a_new_torrent_starts_an_empty_swarm() {
    let mut store = store();

    upsert(&mut store, INFO_HASH, &request(9, false), None, 500);

    assert_eq!(store.len(), 4);
    let torrent = store.get(&9).unwrap();
    assert_eq!(torrent.id, 9);
    assert_eq!(torrent.peers.len(), 0);
    assert!(torrent.upload_totals.is_empty());
}

/// Serving the same request twice changes nothing more. Totals that grew in
/// between are kept while the upload cap stays on.
#[test]
fn upsert_twice_keeps_the_totals() {
    let mut store = store();
    let request = request(1, true);
    upsert(&mut store, INFO_HASH, &request, Some(totals(1, 499)), 500);
    store.get_mut(&1).unwrap().record_upload(1, PeerId([1; 20]), 1, 500);

    assert!(matches!(
        begin_upsert(&store, Some(INFO_HASH), &request),
        UpsertAction::Replace { loaded_totals: None, .. }
    ));
    upsert(&mut store, INFO_HASH, &request.clone(), None, 500);

    let torrent = store.get(&1).unwrap();
    assert_eq!(torrent.upload_totals.get(&1), Some(&500));
    assert!(torrent.peers.get(&index(1)).unwrap().is_upload_capped);
}

/// While the upload cap is off, totals are dropped and flags are left alone.
#[test]
fn upsert_with_upload_cap_off_drops_the_totals() {
    let mut store = store();
    upsert(&mut store, INFO_HASH, &request(1, true), Some(totals(1, 500)), 500);

    upsert(&mut store, INFO_HASH, &request(1, false), None, 500);

    let torrent = store.get(&1).unwrap();
    assert!(torrent.upload_totals.is_empty());
    assert!(torrent.peers.get(&index(1)).unwrap().is_upload_capped);
    assert!(!torrent.peers.get(&index(1)).unwrap().is_withheld(torrent.upload_cap));
}

#[test]
fn destroy_marks_the_torrent_as_deleted() {
    let mut store = store();

    for _ in 0..2 {
        assert_eq!(destroy(&mut store, &APIRemoveTorrent { id: 2 }), StatusCode::Success);
        assert_eq!(store.len(), 3);
        assert!(store.get(&2).unwrap().is_deleted);
        assert_eq!(store.get(&2).unwrap().peers.len(), 1);
        assert!(!store.get(&1).unwrap().is_deleted);
    }
}

#[test]
fn destroy_of_an_unknown_torrent_is_a_bad_request() {
    let mut store = store();

    assert_eq!(destroy(&mut store, &APIRemoveTorrent { id: 9 }), StatusCode::BadRequest);
    assert_eq!(store.len(), 3);
}

#[test]
fn show_gives_a_copy_of_the_torrent() {
    let mut store = store();
    upsert(&mut store, INFO_HASH, &request(2, true), Some(totals(1, 9)), 500);

    let mut shown = show(&store, 2).ok().unwrap();
    assert_eq!(shown.id, 2);
    assert_eq!(shown.size, 100);
    assert_eq!(shown.peers.len(), 1);
    assert_eq!(shown.upload_totals.get(&1), Some(&9));

    shown.upload_totals.insert(1, 10);
    assert_eq!(store.get(&2).unwrap().upload_totals.get(&1), Some(&9));
}

#[test]
fn show_of_an_unknown_torrent_is_not_found() {
    assert_eq!(show(&store(), 9).err(), Some(StatusCode::NotFound));
}
