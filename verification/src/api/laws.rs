//! What holds of the store whatever requests are served.

use vstd::prelude::*;

use crate::api::torrent;
use crate::api::torrent::APIInsertTorrent;
use crate::store::entries;
use crate::store::laws;
use crate::store::torrent::TorrentView;
use crate::store::upload_total::UploadTotalStore;

verus! {

/// An upsert never makes a torrent, or a peer or a user's total in any of
/// them, occur twice.
pub proof fn upserting_keeps_wf(
    torrents: Seq<(u32, TorrentView)>,
    request: APIInsertTorrent,
    loaded_totals: Option<Seq<(u32, u64)>>,
    threshold_percent: u64,
)
    requires
        crate::store::torrent::torrents_wf(torrents),
        loaded_totals matches Some(loaded) ==> entries::keys_distinct(loaded),
    ensures
        crate::store::torrent::torrents_wf(
            torrent::upserted(torrents, request, loaded_totals, threshold_percent),
        ),
{
    let old = torrent::torrent_or_blank(torrents, request.id);
    let new = request.torrent(old, loaded_totals, threshold_percent);
    laws::storing_and_removing_keep_wf(torrents, request.id, new);
    if request.upload_cap {
        entries::lemma_keys_distinct_same_keys(old.peers, new.peers);
    }
    laws::storing_and_removing_keep_wf(
        entries::swap_removed(torrents, request.id),
        request.id,
        new,
    );
}

/// After an upsert, the torrent under the requested id is the requested one,
/// and it stands last. Every other torrent is as it was.
pub proof fn upserting_replaces_one_torrent(
    torrents: Seq<(u32, TorrentView)>,
    request: APIInsertTorrent,
    loaded_totals: Option<Seq<(u32, u64)>>,
    threshold_percent: u64,
    id: u32,
)
    requires
        crate::store::torrent::torrents_wf(torrents),
    ensures
        ({
            let after = torrent::upserted(torrents, request, loaded_totals, threshold_percent);
            let new = request.torrent(
                torrent::torrent_or_blank(torrents, request.id),
                loaded_totals,
                threshold_percent,
            );
            &&& after.last() == (request.id, new)
            &&& entries::lookup(after, id) == if id == request.id {
                Some(new)
            } else {
                entries::lookup(torrents, id)
            }
        }),
{
    let without = entries::swap_removed(torrents, request.id);
    let new = request.torrent(
        torrent::torrent_or_blank(torrents, request.id),
        loaded_totals,
        threshold_percent,
    );
    entries::lookup_after_swap_remove(torrents, request.id, id);
    entries::lookup_after_swap_remove(torrents, request.id, request.id);
    entries::lookup_after_insert(without, request.id, new, id);
}

/// An upsert keeps the swarm. Nobody joins or leaves it, and nothing about a
/// peer changes but its cap flag. While the upload cap is off, not even that.
pub proof fn upserting_keeps_the_swarm(
    request: APIInsertTorrent,
    old: TorrentView,
    loaded_totals: Option<Seq<(u32, u64)>>,
    threshold_percent: u64,
)
    ensures
        laws::only_flags_differ(
            old.peers,
            request.torrent(old, loaded_totals, threshold_percent).peers,
        ),
        !request.upload_cap ==> request.torrent(old, loaded_totals, threshold_percent).peers
            == old.peers,
{
}

/// After an upsert with the upload cap on, every cap flag of the torrent is
/// correct for the size, the totals and the threshold of now.
pub proof fn upserting_makes_flags_current(
    request: APIInsertTorrent,
    old: TorrentView,
    loaded_totals: Option<Seq<(u32, u64)>>,
    threshold_percent: u64,
)
    requires
        request.upload_cap,
    ensures
        request.torrent(old, loaded_totals, threshold_percent).flags_current(threshold_percent),
{
}

/// Which totals a torrent has after an upsert, if the store is not changed
/// between its steps: the loaded ones where the upload cap was just switched
/// on, the ones in memory while it stays on, and none when it's off.
pub proof fn upserting_selects_the_totals(
    torrents: Seq<(u32, TorrentView)>,
    request: APIInsertTorrent,
    loaded: Seq<(u32, u64)>,
    threshold_percent: u64,
)
    ensures
        ({
            let found = entries::lookup(torrents, request.id);
            let loaded_totals = if torrent::needs_load(request.upload_cap, found) {
                Some(loaded)
            } else {
                None
            };
            let totals = request.torrent(
                torrent::torrent_or_blank(torrents, request.id),
                loaded_totals,
                threshold_percent,
            ).upload_totals;
            if !request.upload_cap {
                totals == Seq::<(u32, u64)>::empty()
            } else {
                match found {
                    Some(old) if old.upload_cap => totals == old.upload_totals,
                    _ => totals == loaded,
                }
            }
        }),
{
}

/// Serving the same upsert twice leaves the torrent as serving it once does.
pub proof fn upserting_twice_is_upserting_once(
    torrents: Seq<(u32, TorrentView)>,
    request: APIInsertTorrent,
    loaded_totals: Option<Seq<(u32, u64)>>,
    threshold_percent: u64,
)
    requires
        crate::store::torrent::torrents_wf(torrents),
    ensures
        ({
            let once = torrent::upserted(torrents, request, loaded_totals, threshold_percent);
            &&& !torrent::needs_load(request.upload_cap, entries::lookup(once, request.id))
            &&& entries::lookup(
                torrent::upserted(once, request, None, threshold_percent),
                request.id,
            ) == entries::lookup(once, request.id)
        }),
{
    let once = torrent::upserted(torrents, request, loaded_totals, threshold_percent);
    let old = torrent::torrent_or_blank(torrents, request.id);
    let new = request.torrent(old, loaded_totals, threshold_percent);
    let again = request.torrent(new, None, threshold_percent);
    upserting_replaces_one_torrent(
        torrents,
        request,
        loaded_totals,
        threshold_percent,
        request.id,
    );
    entries::lookup_after_insert(
        entries::swap_removed(once, request.id),
        request.id,
        again,
        request.id,
    );
    if request.upload_cap {
        laws::refreshing_current_flags_changes_nothing(new, threshold_percent);
    }
}

/// Marking a torrent as deleted changes nothing else about it, and no other
/// torrent. It neither adds nor removes a torrent.
pub proof fn destroying_only_marks(torrents: Seq<(u32, TorrentView)>, removed: u32, id: u32)
    ensures
        entries::same_keys(torrents, torrent::destroyed(torrents, removed)),
        entries::lookup(torrent::destroyed(torrents, removed), id) == match entries::lookup(
            torrents,
            id,
        ) {
            Some(found) => Some(
                if id == removed {
                    TorrentView { is_deleted: true, ..found }
                } else {
                    found
                },
            ),
            None => None,
        },
{
    entries::lemma_position(torrents, removed);
    if let Some(found) = entries::lookup(torrents, removed) {
        entries::lookup_after_insert(
            torrents,
            removed,
            TorrentView { is_deleted: true, ..found },
            id,
        );
    }
}

/// Marking a torrent as deleted twice is the same as once.
pub proof fn destroying_twice_is_destroying_once(torrents: Seq<(u32, TorrentView)>, id: u32)
    ensures
        torrent::destroyed(torrent::destroyed(torrents, id), id) == torrent::destroyed(
            torrents,
            id,
        ),
{
    let once = torrent::destroyed(torrents, id);
    destroying_only_marks(torrents, id, id);
    entries::lemma_position(torrents, id);
    entries::lemma_position_same_keys(torrents, once, id);
    assert(torrent::destroyed(once, id) =~= once);
}

/// Whatever requests are served, every torrent stands under its own id.
pub proof fn serving_keeps_own_ids(
    torrents: Seq<(u32, TorrentView)>,
    request: APIInsertTorrent,
    loaded_totals: Option<Seq<(u32, u64)>>,
    threshold_percent: u64,
    removed: u32,
)
    requires
        laws::under_own_ids(torrents),
    ensures
        laws::under_own_ids(
            torrent::upserted(torrents, request, loaded_totals, threshold_percent),
        ),
        laws::under_own_ids(torrent::destroyed(torrents, removed)),
{
    let without = entries::swap_removed(torrents, request.id);
    entries::lemma_position(torrents, request.id);
    assert(laws::under_own_ids(without));
    entries::lemma_position(without, request.id);
    entries::lemma_position(torrents, removed);
}

/// As long as the threshold stays the same, every cap flag on a torrent with
/// upload cap stays correct, whatever requests are served.
pub proof fn serving_keeps_all_flags_current(
    torrents: Seq<(u32, TorrentView)>,
    request: APIInsertTorrent,
    loaded_totals: Option<Seq<(u32, u64)>>,
    threshold_percent: u64,
    removed: u32,
)
    requires
        laws::all_flags_current(torrents, threshold_percent),
    ensures
        laws::all_flags_current(
            torrent::upserted(torrents, request, loaded_totals, threshold_percent),
            threshold_percent,
        ),
        laws::all_flags_current(torrent::destroyed(torrents, removed), threshold_percent),
{
    let without = entries::swap_removed(torrents, request.id);
    entries::lemma_position(torrents, request.id);
    assert(laws::all_flags_current(without, threshold_percent));
    entries::lemma_position(without, request.id);
    entries::lemma_position(torrents, removed);
}

/// Whatever requests are served, only torrents with upload cap hold totals.
pub proof fn serving_fills_totals_only_with_upload_cap(
    torrents: Seq<(u32, TorrentView)>,
    request: APIInsertTorrent,
    loaded_totals: Option<Seq<(u32, u64)>>,
    threshold_percent: u64,
    removed: u32,
)
    requires
        laws::totals_only_with_upload_cap(torrents),
    ensures
        laws::totals_only_with_upload_cap(
            torrent::upserted(torrents, request, loaded_totals, threshold_percent),
        ),
        laws::totals_only_with_upload_cap(torrent::destroyed(torrents, removed)),
{
    let without = entries::swap_removed(torrents, request.id);
    entries::lemma_position(torrents, request.id);
    assert(laws::totals_only_with_upload_cap(without));
    entries::lemma_position(without, request.id);
    entries::lemma_position(torrents, removed);
}

/// After an upsert, the torrent under the requested id has what the request
/// says, field by field.
pub proof fn upserting_takes_every_field_of_the_request(
    torrents: Seq<(u32, TorrentView)>,
    request: APIInsertTorrent,
    loaded_totals: Option<Seq<(u32, u64)>>,
    threshold_percent: u64,
)
    ensures
        match entries::lookup(
            torrent::upserted(torrents, request, loaded_totals, threshold_percent),
            request.id,
        ) {
            Some(found) => {
                &&& found.id == request.id
                &&& found.status == request.status
                &&& found.is_deleted == request.is_deleted
                &&& found.seeders == request.seeders
                &&& found.leechers == request.leechers
                &&& found.times_completed == request.times_completed
                &&& found.download_factor == request.download_factor
                &&& found.upload_factor == request.upload_factor
                &&& found.size == request.size
                &&& found.upload_cap == request.upload_cap
            },
            None => false,
        },
{
    entries::lookup_after_insert(
        entries::swap_removed(torrents, request.id),
        request.id,
        request.torrent(
            torrent::torrent_or_blank(torrents, request.id),
            loaded_totals,
            threshold_percent,
        ),
        request.id,
    );
}

/// After an upsert, the torrent under the requested id has the peers of the one
/// that was there, each where it was and, but for its cap flag, field by field
/// as it was. With the upload cap on, the flag is set exactly if a threshold
/// and a size are set and a hundred times the user's total is at least the size
/// times the threshold; with it off, the flag is as it was. Where no torrent
/// was there, there is no peer.
pub proof fn upserting_keeps_every_field_of_a_peer(
    torrents: Seq<(u32, TorrentView)>,
    request: APIInsertTorrent,
    loaded_totals: Option<Seq<(u32, u64)>>,
    threshold_percent: u64,
    i: int,
)
    ensures
        match (
            entries::lookup(torrents, request.id),
            entries::lookup(
                torrent::upserted(torrents, request, loaded_totals, threshold_percent),
                request.id,
            ),
        ) {
            (Some(old), Some(new)) => {
                &&& new.peers.len() == old.peers.len()
                &&& 0 <= i < old.peers.len() ==> {
                    let uploaded: int = match entries::lookup(
                        new.upload_totals,
                        old.peers[i].0.user_id,
                    ) {
                        Some(total) => total as int,
                        None => 0,
                    };
                    &&& new.peers[i].0 == old.peers[i].0
                    &&& new.peers[i].1.ip_address == old.peers[i].1.ip_address
                    &&& new.peers[i].1.port == old.peers[i].1.port
                    &&& new.peers[i].1.is_seeder == old.peers[i].1.is_seeder
                    &&& new.peers[i].1.is_active == old.peers[i].1.is_active
                    &&& new.peers[i].1.is_visible == old.peers[i].1.is_visible
                    &&& new.peers[i].1.is_connectable == old.peers[i].1.is_connectable
                    &&& new.peers[i].1.has_sent_completed == old.peers[i].1.has_sent_completed
                    &&& new.peers[i].1.updated_at == old.peers[i].1.updated_at
                    &&& new.peers[i].1.uploaded == old.peers[i].1.uploaded
                    &&& new.peers[i].1.downloaded == old.peers[i].1.downloaded
                    &&& request.upload_cap ==> (new.peers[i].1.is_upload_capped
                        <==> threshold_percent != 0 && request.size != 0 && uploaded * 100
                        >= request.size * threshold_percent)
                    &&& !request.upload_cap ==> new.peers[i].1.is_upload_capped
                        == old.peers[i].1.is_upload_capped
                }
            },
            (None, Some(new)) => new.peers.len() == 0,
            _ => false,
        },
{
    entries::lookup_after_insert(
        entries::swap_removed(torrents, request.id),
        request.id,
        request.torrent(
            torrent::torrent_or_blank(torrents, request.id),
            loaded_totals,
            threshold_percent,
        ),
        request.id,
    );
}

/// After an upsert, the torrent under the requested id has no totals if the
/// upload cap is off. If it is on, it has the totals that were handed in, or,
/// where none were, those of the torrent that was there.
pub proof fn upserting_leaves_the_totals_handed_in_or_those_there(
    torrents: Seq<(u32, TorrentView)>,
    request: APIInsertTorrent,
    loaded_totals: Option<Seq<(u32, u64)>>,
    threshold_percent: u64,
)
    ensures
        match entries::lookup(
            torrent::upserted(torrents, request, loaded_totals, threshold_percent),
            request.id,
        ) {
            Some(new) => {
                &&& !request.upload_cap ==> new.upload_totals.len() == 0
                &&& request.upload_cap ==> match (
                    loaded_totals,
                    entries::lookup(torrents, request.id),
                ) {
                    (Some(loaded), _) => new.upload_totals == loaded,
                    (None, Some(old)) => new.upload_totals == old.upload_totals,
                    (None, None) => new.upload_totals.len() == 0,
                }
            },
            None => false,
        },
{
    entries::lookup_after_insert(
        entries::swap_removed(torrents, request.id),
        request.id,
        request.torrent(
            torrent::torrent_or_blank(torrents, request.id),
            loaded_totals,
            threshold_percent,
        ),
        request.id,
    );
}

/// What the loaded totals hold is handed on as it is.
pub proof fn loaded_totals_are_handed_on(loaded: UploadTotalStore)
    ensures
        torrent::loaded_view(Some(loaded)) == Some(loaded@),
        torrent::loaded_view(None) is None,
{
}

/// Totals have to be loaded exactly if the upload cap is on now and the torrent
/// that is there, if one is, has it off. Nothing else about that torrent
/// matters.
pub proof fn totals_are_loaded_when_the_cap_is_switched_on(
    upload_cap: bool,
    old: TorrentView,
)
    ensures
        torrent::needs_load(upload_cap, Some(old)) <==> upload_cap && !old.upload_cap,
        torrent::needs_load(upload_cap, None) <==> upload_cap,
{
}

/// An upsert leaves as many torrents as there were, or one more where none was
/// under the requested id. The requested one stands last, the one that was last
/// takes the place of the one replaced, and all others stay where they are.
pub proof fn upserting_moves_the_last_torrent_alone(
    torrents: Seq<(u32, TorrentView)>,
    request: APIInsertTorrent,
    loaded_totals: Option<Seq<(u32, u64)>>,
    threshold_percent: u64,
    i: int,
    j: int,
)
    requires
        forall|a: int, b: int|
            0 <= a < b < torrents.len() ==> (#[trigger] torrents[a]).0 != (
            #[trigger] torrents[b]).0,
    ensures
        ({
            let after = torrent::upserted(torrents, request, loaded_totals, threshold_percent);
            &&& 0 <= i < torrents.len() && torrents[i].0 == request.id ==> {
                &&& after.len() == torrents.len()
                &&& after[torrents.len() - 1].0 == request.id
                &&& i < torrents.len() - 1 ==> after[i] == torrents[torrents.len() - 1]
                &&& 0 <= j < torrents.len() - 1 && j != i ==> after[j] == torrents[j]
            }
            &&& (forall|k: int| 0 <= k < torrents.len() ==> (#[trigger] torrents[k]).0 != request.id)
                ==> {
                &&& after.len() == torrents.len() + 1
                &&& after[torrents.len() as int].0 == request.id
                &&& 0 <= j < torrents.len() ==> after[j] == torrents[j]
            }
        }),
{
    let without = entries::swap_removed(torrents, request.id);
    entries::swap_remove_moves_the_last_entry_alone(torrents, request.id, i);
    entries::lemma_position(torrents, request.id);
    entries::lookup_after_swap_remove(torrents, request.id, request.id);
    entries::lemma_position(without, request.id);
}

/// After a torrent was marked as deleted, it is, field by field, as it was but
/// for that. Every torrent stays where it is, and all others are as they were.
pub proof fn destroying_changes_one_field(
    torrents: Seq<(u32, TorrentView)>,
    removed: u32,
    i: int,
)
    requires
        forall|a: int, b: int|
            0 <= a < b < torrents.len() ==> (#[trigger] torrents[a]).0 != (
            #[trigger] torrents[b]).0,
    ensures
        torrent::destroyed(torrents, removed).len() == torrents.len(),
        0 <= i < torrents.len() ==> {
            let before = torrents[i].1;
            let after = torrent::destroyed(torrents, removed)[i].1;
            &&& torrent::destroyed(torrents, removed)[i].0 == torrents[i].0
            &&& after.is_deleted <==> before.is_deleted || torrents[i].0 == removed
            &&& after.id == before.id
            &&& after.status == before.status
            &&& after.seeders == before.seeders
            &&& after.leechers == before.leechers
            &&& after.times_completed == before.times_completed
            &&& after.download_factor == before.download_factor
            &&& after.upload_factor == before.upload_factor
            &&& after.size == before.size
            &&& after.upload_cap == before.upload_cap
            &&& after.peers == before.peers
            &&& after.upload_totals == before.upload_totals
        },
{
    entries::lemma_position(torrents, removed);
}

} // verus!
