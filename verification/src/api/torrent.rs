//! Inserting, removing and showing torrents.

use vstd::prelude::*;

use crate::api::laws;
use crate::model::{InfoHash, TorrentStatus};
use crate::store::entries;
use crate::store::torrent::{Torrent, TorrentStore, TorrentView};
use crate::store::upload_total::UploadTotalStore;

verus! {

/// How a request is answered.
#[derive(Clone, Copy, Debug, PartialEq, Eq, Structural)]
pub enum StatusCode {
    Success,
    BadRequest,
    NotFound,
    InternalServerError,
}

/// A torrent as it is sent to the tracker.
pub struct APIInsertTorrent {
    pub id: u32,
    pub status: TorrentStatus,
    pub info_hash: String,
    pub is_deleted: bool,
    pub seeders: u32,
    pub leechers: u32,
    pub times_completed: u32,
    pub download_factor: u8,
    pub upload_factor: u8,
    pub size: u64,
    pub upload_cap: bool,
}

impl Clone for APIInsertTorrent {
    fn clone(&self) -> (copy: APIInsertTorrent)
        ensures
            copy.info_hash@ == self.info_hash@,
            (APIInsertTorrent { info_hash: self.info_hash, ..copy }) == *self,
    {
        APIInsertTorrent {
            id: self.id,
            status: self.status,
            info_hash: self.info_hash.clone(),
            is_deleted: self.is_deleted,
            seeders: self.seeders,
            leechers: self.leechers,
            times_completed: self.times_completed,
            download_factor: self.download_factor,
            upload_factor: self.upload_factor,
            size: self.size,
            upload_cap: self.upload_cap,
        }
    }
}

/// Which torrent is to be removed.
#[derive(Clone, Copy, Debug)]
pub struct APIRemoveTorrent {
    pub id: u32,
}

/// What is left to be done for an upsert.
pub enum UpsertAction {
    /// Answer with the status.
    Respond(StatusCode),
    /// Load the torrent's upload totals from `history` and go on with
    /// `resume_upsert`. The store must not be locked meanwhile.
    LoadUploadTotals { info_hash: InfoHash, torrent_id: u32 },
    /// Lock the store and go on with `upsert`, within one lock, so that no
    /// announce sees the torrent missing.
    Replace { info_hash: InfoHash, loaded_totals: Option<UploadTotalStore> },
    /// Let the info hash lead to the torrent, then answer with the status.
    Register { info_hash: InfoHash, torrent_id: u32, status: StatusCode },
}

/// Upload totals must be loaded: the upload cap is on now and wasn't on the
/// torrent already in the store.
pub open spec fn needs_load(upload_cap: bool, old_torrent: Option<TorrentView>) -> bool {
    upload_cap && match old_torrent {
        Some(old) => !old.upload_cap,
        None => true,
    }
}

/// Freshly loaded totals when there are any, the old ones when there are none,
/// and no totals at all when the upload cap is off.
pub open spec fn selected_totals(
    upload_cap: bool,
    old_totals: Seq<(u32, u64)>,
    loaded_totals: Option<Seq<(u32, u64)>>,
) -> Seq<(u32, u64)> {
    if !upload_cap {
        Seq::empty()
    } else {
        match loaded_totals {
            Some(loaded) => loaded,
            None => old_totals,
        }
    }
}

/// No user occurs twice in the loaded totals, where totals were loaded.
pub open spec fn loaded_wf(loaded_totals: Option<UploadTotalStore>) -> bool {
    match loaded_totals {
        Some(loaded) => loaded.wf(),
        None => true,
    }
}

/// What the loaded totals hold, where totals were loaded.
pub open spec fn loaded_view(loaded_totals: Option<UploadTotalStore>) -> Option<Seq<(u32, u64)>> {
    match loaded_totals {
        Some(loaded) => Some(loaded@),
        None => None,
    }
}

impl APIInsertTorrent {
    /// The torrent that takes the place of `old`: what the request says, with
    /// the old swarm, the selected totals and, while the upload cap is on, cap
    /// flags to match.
    pub open spec fn torrent(
        self,
        old: TorrentView,
        loaded_totals: Option<Seq<(u32, u64)>>,
        threshold_percent: u64,
    ) -> TorrentView {
        let torrent = TorrentView {
            id: self.id,
            status: self.status,
            is_deleted: self.is_deleted,
            peers: old.peers,
            seeders: self.seeders,
            leechers: self.leechers,
            times_completed: self.times_completed,
            download_factor: self.download_factor,
            upload_factor: self.upload_factor,
            size: self.size,
            upload_cap: self.upload_cap,
            upload_totals: selected_totals(self.upload_cap, old.upload_totals, loaded_totals),
        };
        if self.upload_cap {
            torrent.refreshed(threshold_percent)
        } else {
            torrent
        }
    }
}

/// The torrent under the id, or a blank one.
pub open spec fn torrent_or_blank(torrents: Seq<(u32, TorrentView)>, id: u32) -> TorrentView {
    match entries::lookup(torrents, id) {
        Some(torrent) => torrent,
        None => TorrentView::blank(),
    }
}

/// The store once the requested torrent has taken the place of the one under
/// its id.
pub open spec fn upserted(
    torrents: Seq<(u32, TorrentView)>,
    request: APIInsertTorrent,
    loaded_totals: Option<Seq<(u32, u64)>>,
    threshold_percent: u64,
) -> Seq<(u32, TorrentView)> {
    entries::inserted(
        entries::swap_removed(torrents, request.id),
        request.id,
        request.torrent(
            torrent_or_blank(torrents, request.id),
            loaded_totals,
            threshold_percent,
        ),
    )
}

/// The store once the torrent under the id, if there is one, is marked as
/// deleted.
pub open spec fn destroyed(torrents: Seq<(u32, TorrentView)>, id: u32) -> Seq<
    (u32, TorrentView),
> {
    match entries::lookup(torrents, id) {
        Some(torrent) => entries::inserted(
            torrents,
            id,
            TorrentView { is_deleted: true, ..torrent },
        ),
        None => torrents,
    }
}

/// Whether upload totals must be loaded from `history`: the upload cap is on
/// now and wasn't on the torrent already in the store.
pub fn needs_upload_totals_load(upload_cap: bool, old_torrent: Option<&Torrent>) -> (needed: bool)
    ensures
        needed == needs_load(
            upload_cap,
            match old_torrent {
                Some(old) => Some(old@),
                None => None,
            },
        ),
        needed <==> upload_cap && match old_torrent {
            Some(old) => !old.upload_cap,
            None => true,
        },
{
    upload_cap && match old_torrent {
        Some(old) => !old.upload_cap,
        None => true,
    }
}

/// Freshly loaded totals when the upload cap was just switched on, the
/// in-memory ones while it stays on, and none when it's off.
pub fn select_upload_totals(
    upload_cap: bool,
    old_totals: UploadTotalStore,
    loaded_totals: Option<UploadTotalStore>,
) -> (selected: UploadTotalStore)
    ensures
        selected@ == selected_totals(upload_cap, old_totals@, loaded_view(loaded_totals)),
        !upload_cap ==> selected@.len() == 0,
        upload_cap ==> selected@ == match loaded_totals {
            Some(loaded) => loaded@,
            None => old_totals@,
        },
{
    if upload_cap {
        match loaded_totals {
            Some(loaded) => loaded,
            None => old_totals,
        }
    } else {
        UploadTotalStore::new()
    }
}

/// The first step of an upsert. `info_hash` is what could be read out of the
/// request's info hash, if anything.
///
/// Upload totals are only kept in memory while upload cap is enabled, so they
/// don't exist yet when it gets switched on and have to be loaded from
/// `history`. When the torrent already had upload cap, its in-memory totals
/// are kept instead of reloading them. They count every announce up to now,
/// while `history` lags behind by the updates still queued for the next flush.
pub fn begin_upsert(
    torrents: &TorrentStore,
    info_hash: Option<InfoHash>,
    request: &APIInsertTorrent,
) -> (action: UpsertAction)
    ensures
        action == match info_hash {
            None => UpsertAction::Respond(StatusCode::BadRequest),
            Some(info_hash) => if needs_load(
                request.upload_cap,
                entries::lookup(torrents@, request.id),
            ) {
                UpsertAction::LoadUploadTotals { info_hash, torrent_id: request.id }
            } else {
                UpsertAction::Replace { info_hash, loaded_totals: None }
            },
        },
        action is LoadUploadTotals <==> info_hash is Some && request.upload_cap && (
        match entries::lookup(torrents@, request.id) {
            Some(old) => !old.upload_cap,
            None => true,
        }),
{
    match info_hash {
        None => UpsertAction::Respond(StatusCode::BadRequest),
        Some(info_hash) => if needs_upload_totals_load(
            request.upload_cap,
            torrents.get(&request.id),
        ) {
            UpsertAction::LoadUploadTotals { info_hash, torrent_id: request.id }
        } else {
            UpsertAction::Replace { info_hash, loaded_totals: None }
        },
    }
}

/// The step after upload totals were asked for: `loaded_totals` is what came,
/// or nothing where loading failed.
pub fn resume_upsert(info_hash: InfoHash, loaded_totals: Option<UploadTotalStore>) -> (action:
    UpsertAction)
    ensures
        action == if loaded_totals is None {
            UpsertAction::Respond(StatusCode::InternalServerError)
        } else {
            UpsertAction::Replace { info_hash, loaded_totals }
        },
{
    if loaded_totals.is_none() {
        UpsertAction::Respond(StatusCode::InternalServerError)
    } else {
        UpsertAction::Replace { info_hash, loaded_totals }
    }
}

/// Puts the requested torrent in the place of the one under its id, whose
/// swarm it takes over.
pub fn upsert(
    torrents: &mut TorrentStore,
    info_hash: InfoHash,
    request: &APIInsertTorrent,
    loaded_totals: Option<UploadTotalStore>,
    threshold_percent: u64,
) -> (action: UpsertAction)
    ensures
        final(torrents)@ == upserted(
            old(torrents)@,
            *request,
            loaded_view(loaded_totals),
            threshold_percent,
        ),
        action == (UpsertAction::Register {
            info_hash,
            torrent_id: request.id,
            status: StatusCode::Success,
        }),
        entries::lookup(final(torrents)@, request.id) == Some(
            request.torrent(
                torrent_or_blank(old(torrents)@, request.id),
                loaded_view(loaded_totals),
                threshold_percent,
            ),
        ),
        match entries::lookup(final(torrents)@, request.id) {
            Some(torrent) => {
                &&& torrent.id == request.id
                &&& torrent.status == request.status
                &&& torrent.is_deleted == request.is_deleted
                &&& torrent.seeders == request.seeders
                &&& torrent.leechers == request.leechers
                &&& torrent.times_completed == request.times_completed
                &&& torrent.download_factor == request.download_factor
                &&& torrent.upload_factor == request.upload_factor
                &&& torrent.size == request.size
                &&& torrent.upload_cap == request.upload_cap
            },
            None => false,
        },
        old(torrents).wf() ==> forall|other: u32|
            other != request.id ==> #[trigger] entries::lookup(final(torrents)@, other)
                == entries::lookup(old(torrents)@, other),
        old(torrents).wf() && loaded_wf(loaded_totals) ==> final(torrents).wf(),
{
    let ghost before = torrents@;
    proof {
        if torrents.wf() {
            assert forall|other: u32| other != request.id implies #[trigger] entries::lookup(
                entries::swap_removed(before, request.id),
                other,
            ) == entries::lookup(before, other) by {
                entries::lookup_after_swap_remove(before, request.id, other);
            }
        }
        if torrents.wf() && loaded_wf(loaded_totals) {
            laws::upserting_keeps_wf(
                torrents@,
                *request,
                loaded_view(loaded_totals),
                threshold_percent,
            );
        }
    }
    let old_torrent = match torrents.swap_remove(&request.id) {
        Some(torrent) => torrent,
        None => Torrent::default(),
    };
    let upload_totals = select_upload_totals(
        request.upload_cap,
        old_torrent.upload_totals,
        loaded_totals,
    );
    let mut new_torrent = Torrent {
        id: request.id,
        status: request.status,
        is_deleted: request.is_deleted,
        seeders: request.seeders,
        leechers: request.leechers,
        times_completed: request.times_completed,
        download_factor: request.download_factor,
        upload_factor: request.upload_factor,
        size: request.size,
        upload_cap: request.upload_cap,
        upload_totals,
        peers: old_torrent.peers,
    };

    // Cached flags may be stale after loading totals or a size or
    // threshold change. They are ignored while the upload cap is off.
    if new_torrent.upload_cap {
        new_torrent.refresh_upload_caps(threshold_percent);
    }
    torrents.insert(request.id, new_torrent);

    UpsertAction::Register { info_hash, torrent_id: request.id, status: StatusCode::Success }
}

/// Marks the torrent as deleted.
pub fn destroy(torrents: &mut TorrentStore, request: &APIRemoveTorrent) -> (status: StatusCode)
    ensures
        final(torrents)@ == destroyed(old(torrents)@, request.id),
        status == if entries::lookup(old(torrents)@, request.id) is Some {
            StatusCode::Success
        } else {
            StatusCode::BadRequest
        },
        forall|id: u32| #[trigger]
            entries::lookup(final(torrents)@, id) == match entries::lookup(old(torrents)@, id) {
                Some(torrent) => Some(
                    if id == request.id {
                        TorrentView { is_deleted: true, ..torrent }
                    } else {
                        torrent
                    },
                ),
                None => None,
            },
        old(torrents).wf() ==> final(torrents).wf(),
{
    proof {
        assert forall|id: u32| #[trigger]
            entries::lookup(destroyed(torrents@, request.id), id) == match entries::lookup(
                torrents@,
                id,
            ) {
                Some(torrent) => Some(
                    if id == request.id {
                        TorrentView { is_deleted: true, ..torrent }
                    } else {
                        torrent
                    },
                ),
                None => None,
            } by {
            laws::destroying_only_marks(torrents@, request.id, id);
        }
    }
    if let Some(torrent) = torrents.get_mut(&request.id) {
        torrent.is_deleted = true;
        return StatusCode::Success;
    }
    StatusCode::BadRequest
}

/// A copy of the torrent under the id.
pub fn show(torrents: &TorrentStore, id: u32) -> (torrent: Result<Torrent, StatusCode>)
    ensures
        match torrent {
            Ok(torrent) => {
                &&& entries::lookup(torrents@, id) == Some(torrent@)
                &&& entries::lookup(torrents@, id) matches Some(found)
                &&& torrent.id == found.id
                &&& torrent.status == found.status
                &&& torrent.is_deleted == found.is_deleted
                &&& torrent.seeders == found.seeders
                &&& torrent.leechers == found.leechers
                &&& torrent.times_completed == found.times_completed
                &&& torrent.download_factor == found.download_factor
                &&& torrent.upload_factor == found.upload_factor
                &&& torrent.size == found.size
                &&& torrent.upload_cap == found.upload_cap
                &&& torrent.peers@ == found.peers
                &&& torrent.upload_totals@ == found.upload_totals
            },
            Err(status) => {
                &&& entries::lookup(torrents@, id) is None
                &&& status == StatusCode::NotFound
            },
        },
{
    match torrents.get(&id) {
        Some(torrent) => Ok(torrent.clone()),
        None => Err(StatusCode::NotFound),
    }
}

} // verus!
