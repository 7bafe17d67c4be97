//! What holds of a torrent's totals and cap flags whatever is recorded, and of
//! the store that is loaded from the database.

use vstd::prelude::*;

use crate::store::entries;
use crate::store::peer::{Index, Peer};
use crate::store::torrent;
use crate::store::torrent::{
    DBImportPeer, DBImportTorrent, DBImportUploadTotal, TorrentView,
};
use crate::store::upload_total;
use crate::store::upload_total::DBUploadTotal;

verus! {

/// Recording an upload adds it to the user's total, up to the largest total
/// that can be held. Every other user's total stays as it is, and an upload of
/// nothing changes no total.
pub proof fn recording_adds_to_the_total(
    torrent: TorrentView,
    client: Index,
    uploaded_delta: u64,
    threshold_percent: u64,
    other: u32,
)
    requires
        torrent.upload_cap,
    ensures
        ({
            let after = torrent.recorded(client, uploaded_delta, threshold_percent);
            &&& upload_total::total_of(after.upload_totals, client.user_id) == torrent.total_after(
                client.user_id,
                uploaded_delta,
            )
            &&& other != client.user_id ==> entries::lookup(after.upload_totals, other)
                == entries::lookup(torrent.upload_totals, other)
            &&& uploaded_delta == 0 ==> after.upload_totals == torrent.upload_totals
        }),
{
    let total = torrent.total_after(client.user_id, uploaded_delta);
    entries::lookup_after_insert(torrent.upload_totals, client.user_id, total, client.user_id);
    entries::lookup_after_insert(torrent.upload_totals, client.user_id, total, other);
}

/// While upload cap is disabled, recording changes nothing.
pub proof fn recording_does_nothing_without_upload_cap(
    torrent: TorrentView,
    client: Index,
    uploaded_delta: u64,
    threshold_percent: u64,
)
    requires
        !torrent.upload_cap,
    ensures
        torrent.recorded(client, uploaded_delta, threshold_percent) == torrent,
{
}

/// One upload to be recorded.
pub struct Upload {
    pub client: Index,
    pub uploaded_delta: u64,
    pub threshold_percent: u64,
}

/// The torrent once the uploads were recorded one after the other.
pub open spec fn recorded_all(torrent: TorrentView, uploads: Seq<Upload>) -> TorrentView
    decreases uploads.len(),
{
    if uploads.len() == 0 {
        torrent
    } else {
        recorded_all(torrent, uploads.drop_last()).recorded(
            uploads.last().client,
            uploads.last().uploaded_delta,
            uploads.last().threshold_percent,
        )
    }
}

/// How much the user uploaded in all of the uploads.
pub open spec fn sum_of_user(uploads: Seq<Upload>, user_id: u32) -> nat
    decreases uploads.len(),
{
    if uploads.len() == 0 {
        0
    } else {
        sum_of_user(uploads.drop_last(), user_id) + if uploads.last().client.user_id == user_id {
            uploads.last().uploaded_delta as nat
        } else {
            0
        }
    }
}

/// However many uploads are recorded, from whichever clients and under
/// whichever thresholds, each user's total grows by the sum of their own, up
/// to the largest total that can be held.
pub proof fn recorded_uploads_add_up(torrent: TorrentView, uploads: Seq<Upload>, user_id: u32)
    requires
        torrent.upload_cap,
    ensures
        ({
            let total = upload_total::total_of(torrent.upload_totals, user_id) + sum_of_user(
                uploads,
                user_id,
            );
            upload_total::total_of(recorded_all(torrent, uploads).upload_totals, user_id)
                == if total <= u64::MAX {
                total
            } else {
                u64::MAX as int
            }
        }),
        recorded_all(torrent, uploads).upload_cap,
    decreases uploads.len(),
{
    if uploads.len() > 0 {
        let last = uploads.last();
        recorded_uploads_add_up(torrent, uploads.drop_last(), user_id);
        recording_adds_to_the_total(
            recorded_all(torrent, uploads.drop_last()),
            last.client,
            last.uploaded_delta,
            last.threshold_percent,
            user_id,
        );
    }
}

/// Recording an upload changes nothing about the swarm but cap flags, and
/// those only on peers of the user. Nobody joins or leaves, and what decides
/// whether a peer counts as an active, visible seed stays as it was.
pub proof fn recording_leaves_the_swarm_untouched(
    torrent: TorrentView,
    client: Index,
    uploaded_delta: u64,
    threshold_percent: u64,
)
    ensures
        ({
            let after = torrent.recorded(client, uploaded_delta, threshold_percent);
            &&& only_flags_differ(torrent.peers, after.peers)
            &&& forall|i: int|
                0 <= i < torrent.peers.len() && (#[trigger] torrent.peers[i]).0.user_id
                    != client.user_id ==> after.peers[i] == torrent.peers[i]
            &&& after == (TorrentView {
                peers: after.peers,
                upload_totals: after.upload_totals,
                ..torrent
            })
        }),
{
}

/// The two swarms have the same peers at the same places, and no two of them
/// differ but in the cap flag.
pub open spec fn only_flags_differ(
    before: Seq<(Index, Peer)>,
    after: Seq<(Index, Peer)>,
) -> bool {
    &&& entries::same_keys(before, after)
    &&& forall|i: int|
        0 <= i < before.len() ==> (#[trigger] after[i]).1 == before[i].1.with_upload_capped(
            after[i].1.is_upload_capped,
        )
}

/// Whatever the flags were before, an announce of any client of the user, in
/// the swarm or not, leaves the right flag on all of the user's peers. So the
/// first announce after a threshold change corrects all of them.
pub proof fn one_announce_corrects_every_flag_of_the_user(
    torrent: TorrentView,
    client: Index,
    uploaded_delta: u64,
    threshold_percent: u64,
)
    requires
        torrent.upload_cap,
    ensures
        ({
            let after = torrent.recorded(client, uploaded_delta, threshold_percent);
            &&& after.caps(client.user_id, threshold_percent) == torrent.caps_after(
                client.user_id,
                uploaded_delta,
                threshold_percent,
            )
            &&& forall|i: int|
                0 <= i < after.peers.len() && (#[trigger] after.peers[i]).0.user_id
                    == client.user_id ==> after.peers[i].1.is_upload_capped == after.caps(
                    client.user_id,
                    threshold_percent,
                )
        }),
{
    recording_adds_to_the_total(
        torrent,
        client,
        uploaded_delta,
        threshold_percent,
        client.user_id,
    );
}

/// As long as the threshold stays the same, recording uploads keeps the cached
/// flag of every peer correct.
pub proof fn recording_keeps_flags_current(
    torrent: TorrentView,
    client: Index,
    uploaded_delta: u64,
    threshold_percent: u64,
)
    requires
        torrent.upload_cap,
        torrent.flags_current(threshold_percent),
    ensures
        torrent.recorded(client, uploaded_delta, threshold_percent).flags_current(
            threshold_percent,
        ),
{
    let after = torrent.recorded(client, uploaded_delta, threshold_percent);
    assert forall|i: int| 0 <= i < after.peers.len() implies (
    #[trigger] after.peers[i]).1.is_upload_capped == after.caps(
        after.peers[i].0.user_id,
        threshold_percent,
    ) by {
        let before = torrent.peers[i];
        assert(before.0 == after.peers[i].0);
        recording_adds_to_the_total(
            torrent,
            client,
            uploaded_delta,
            threshold_percent,
            before.0.user_id,
        );
    }
}

/// Flags that are correct stay so through any number of uploads that are
/// recorded under the same threshold.
pub proof fn recorded_uploads_keep_flags_current(
    torrent: TorrentView,
    uploads: Seq<Upload>,
    threshold_percent: u64,
)
    requires
        torrent.upload_cap,
        torrent.flags_current(threshold_percent),
        forall|i: int|
            0 <= i < uploads.len() ==> (#[trigger] uploads[i]).threshold_percent
                == threshold_percent,
    ensures
        recorded_all(torrent, uploads).upload_cap,
        recorded_all(torrent, uploads).flags_current(threshold_percent),
    decreases uploads.len(),
{
    if uploads.len() > 0 {
        let init = uploads.drop_last();
        assert(forall|i: int| 0 <= i < init.len() ==> init[i] == #[trigger] uploads[i]);
        recorded_uploads_keep_flags_current(torrent, init, threshold_percent);
        recording_keeps_flags_current(
            recorded_all(torrent, init),
            uploads.last().client,
            uploads.last().uploaded_delta,
            threshold_percent,
        );
    }
}

/// On a torrent with upload cap, the peers withheld from peer lists are exactly
/// those whose user's total has reached the cap. On any other torrent nobody is
/// withheld, whatever the flags say.
pub proof fn withheld_peers_are_those_over_the_cap(
    torrent: TorrentView,
    threshold_percent: u64,
    place: int,
)
    requires
        torrent.upload_cap ==> torrent.flags_current(threshold_percent),
        0 <= place < torrent.peers.len(),
    ensures
        torrent.peers[place].1.withheld(torrent.upload_cap) == (torrent.upload_cap && torrent.caps(
            torrent.peers[place].0.user_id,
            threshold_percent,
        )),
{
}

/// A torrent without a known size caps nobody.
pub proof fn recording_without_size_never_caps(
    torrent: TorrentView,
    user_id: u32,
    uploaded_delta: u64,
    threshold_percent: u64,
)
    requires
        torrent.size == 0,
    ensures
        !torrent.caps_after(user_id, uploaded_delta, threshold_percent),
{
}

/// Recomputing the flags makes every one of them correct, and changes nothing
/// else.
pub proof fn refreshing_makes_flags_current(torrent: TorrentView, threshold_percent: u64)
    ensures
        torrent.refreshed(threshold_percent).flags_current(threshold_percent),
        only_flags_differ(torrent.peers, torrent.refreshed(threshold_percent).peers),
        torrent.refreshed(threshold_percent) == (TorrentView {
            peers: torrent.refreshed(threshold_percent).peers,
            ..torrent
        }),
{
}

/// Recomputing flags that are correct changes nothing. In particular,
/// recomputing them twice is the same as once.
pub proof fn refreshing_current_flags_changes_nothing(torrent: TorrentView, threshold_percent: u64)
    requires
        torrent.flags_current(threshold_percent),
    ensures
        torrent.refreshed(threshold_percent) == torrent,
{
    assert(torrent.refreshed(threshold_percent).peers =~= torrent.peers);
}

/// With a threshold of 0, or without a torrent size, recomputing the flags
/// clears all of them.
pub proof fn refreshing_with_zero_threshold_or_size_uncaps_everyone(
    torrent: TorrentView,
    threshold_percent: u64,
)
    requires
        threshold_percent == 0 || torrent.size == 0,
    ensures
        forall|i: int|
            0 <= i < torrent.peers.len() ==> !(#[trigger] torrent.refreshed(
                threshold_percent,
            ).peers[i]).1.is_upload_capped,
{
}

/// Recording uploads and recomputing flags never makes a peer or a user's
/// total occur twice.
pub proof fn recording_and_refreshing_keep_wf(
    torrent: TorrentView,
    client: Index,
    uploaded_delta: u64,
    threshold_percent: u64,
)
    requires
        torrent.wf(),
    ensures
        torrent.recorded(client, uploaded_delta, threshold_percent).wf(),
        torrent.refreshed(threshold_percent).wf(),
{
    let recorded = torrent.recorded(client, uploaded_delta, threshold_percent);
    let refreshed = torrent.refreshed(threshold_percent);
    entries::insert_keeps_keys_distinct(
        torrent.upload_totals,
        client.user_id,
        torrent.total_after(client.user_id, uploaded_delta),
    );
    entries::lemma_keys_distinct_same_keys(torrent.peers, recorded.peers);
    entries::lemma_keys_distinct_same_keys(torrent.peers, refreshed.peers);
}

/// Putting a torrent in, or taking one out, never makes a torrent, or a peer or
/// a user's total in any of them, occur twice.
pub proof fn storing_and_removing_keep_wf(
    torrents: Seq<(u32, TorrentView)>,
    id: u32,
    torrent: TorrentView,
)
    requires
        torrent::torrents_wf(torrents),
    ensures
        torrent.wf() ==> torrent::torrents_wf(entries::inserted(torrents, id, torrent)),
        torrent::torrents_wf(entries::swap_removed(torrents, id)),
        match entries::lookup(torrents, id) {
            Some(found) => found.wf(),
            None => true,
        },
{
    entries::lemma_position(torrents, id);
    entries::insert_keeps_keys_distinct(torrents, id, torrent);
    entries::lookup_after_swap_remove(torrents, id, id);
}

/// The last of the rows that is about the torrent, if there is one.
pub open spec fn last_torrent_row(rows: Seq<DBImportTorrent>, id: u32) -> Option<DBImportTorrent>
    decreases rows.len(),
{
    if rows.len() == 0 {
        None
    } else if rows.last().id == id {
        Some(rows.last())
    } else {
        last_torrent_row(rows.drop_last(), id)
    }
}

/// The user's upload on the torrent in the last of the rows that is about
/// both, if there is one.
pub open spec fn last_total_row(
    rows: Seq<DBImportUploadTotal>,
    id: u32,
    user_id: u32,
) -> Option<u64>
    decreases rows.len(),
{
    if rows.len() == 0 {
        None
    } else if rows.last().torrent_id == id && rows.last().user_id == user_id {
        Some(rows.last().actual_uploaded)
    } else {
        last_total_row(rows.drop_last(), id, user_id)
    }
}

/// The last of the rows that is about the client on the torrent, if there is
/// one.
pub open spec fn last_peer_row(rows: Seq<DBImportPeer>, id: u32, client: Index) -> Option<
    DBImportPeer,
>
    decreases rows.len(),
{
    if rows.len() == 0 {
        None
    } else if rows.last().torrent_id == id && rows.last().index() == client {
        Some(rows.last())
    } else {
        last_peer_row(rows.drop_last(), id, client)
    }
}

/// A torrent is loaded as the last row about it has it, if there is one, with
/// nobody in its swarm.
pub(crate) proof fn lemma_torrents_of_rows(rows: Seq<DBImportTorrent>, id: u32)
    ensures
        entries::lookup(torrent::torrents_of_rows(rows), id) == match last_torrent_row(rows, id) {
            Some(row) => Some(row.torrent()),
            None => None,
        },
        torrent::torrents_wf(torrent::torrents_of_rows(rows)),
    decreases rows.len(),
{
    if rows.len() > 0 {
        let init = torrent::torrents_of_rows(rows.drop_last());
        lemma_torrents_of_rows(rows.drop_last(), id);
        entries::lookup_after_insert(init, rows.last().id, rows.last().torrent(), id);
        storing_and_removing_keep_wf(init, rows.last().id, rows.last().torrent());
    }
}

/// Every user's total is that of the last row about them and the torrent, if
/// there is one, and nothing else changes.
pub(crate) proof fn lemma_with_total_rows(
    torrents: Seq<(u32, TorrentView)>,
    rows: Seq<DBImportUploadTotal>,
    id: u32,
    user_id: u32,
)
    requires
        torrent::torrents_wf(torrents),
    ensures
        torrent::torrents_wf(torrent::with_total_rows(torrents, rows)),
        match entries::lookup(torrents, id) {
            Some(before) => match entries::lookup(torrent::with_total_rows(torrents, rows), id) {
                Some(after) => {
                    &&& after == (TorrentView { upload_totals: after.upload_totals, ..before })
                    &&& entries::lookup(after.upload_totals, user_id) == match last_total_row(
                        rows,
                        id,
                        user_id,
                    ) {
                        Some(total) => Some(total),
                        None => entries::lookup(before.upload_totals, user_id),
                    }
                },
                None => false,
            },
            None => entries::lookup(torrent::with_total_rows(torrents, rows), id) is None,
        },
    decreases rows.len(),
{
    if rows.len() > 0 {
        let row = rows.last();
        let init = torrent::with_total_rows(torrents, rows.drop_last());
        lemma_with_total_rows(torrents, rows.drop_last(), id, user_id);
        if let Some(found) = entries::lookup(init, row.torrent_id) {
            let changed = TorrentView {
                upload_totals: entries::inserted(
                    found.upload_totals,
                    row.user_id,
                    row.actual_uploaded,
                ),
                ..found
            };
            storing_and_removing_keep_wf(init, row.torrent_id, changed);
            entries::insert_keeps_keys_distinct(
                found.upload_totals,
                row.user_id,
                row.actual_uploaded,
            );
            entries::lookup_after_insert(init, row.torrent_id, changed, id);
            entries::lookup_after_insert(
                found.upload_totals,
                row.user_id,
                row.actual_uploaded,
                user_id,
            );
        }
    }
}

/// Every client's peer is that of the last row about it and the torrent, if
/// there is one, and nothing else changes.
pub(crate) proof fn lemma_with_peer_rows(
    torrents: Seq<(u32, TorrentView)>,
    rows: Seq<DBImportPeer>,
    id: u32,
    client: Index,
)
    requires
        torrent::torrents_wf(torrents),
    ensures
        torrent::torrents_wf(torrent::with_peer_rows(torrents, rows)),
        match entries::lookup(torrents, id) {
            Some(before) => match entries::lookup(torrent::with_peer_rows(torrents, rows), id) {
                Some(after) => {
                    &&& after == (TorrentView { peers: after.peers, ..before })
                    &&& entries::lookup(after.peers, client) == match last_peer_row(
                        rows,
                        id,
                        client,
                    ) {
                        Some(row) => Some(row.peer()),
                        None => entries::lookup(before.peers, client),
                    }
                },
                None => false,
            },
            None => entries::lookup(torrent::with_peer_rows(torrents, rows), id) is None,
        },
    decreases rows.len(),
{
    if rows.len() > 0 {
        let row = rows.last();
        let init = torrent::with_peer_rows(torrents, rows.drop_last());
        lemma_with_peer_rows(torrents, rows.drop_last(), id, client);
        if let Some(found) = entries::lookup(init, row.torrent_id) {
            let changed = TorrentView {
                peers: entries::inserted(found.peers, row.index(), row.peer()),
                ..found
            };
            storing_and_removing_keep_wf(init, row.torrent_id, changed);
            entries::insert_keeps_keys_distinct(found.peers, row.index(), row.peer());
            entries::lookup_after_insert(init, row.torrent_id, changed, id);
            entries::lookup_after_insert(found.peers, row.index(), row.peer(), client);
        }
    }
}

/// Recomputing the flags of all torrents recomputes those of each torrent with
/// upload cap.
pub(crate) proof fn lemma_all_refreshed(
    torrents: Seq<(u32, TorrentView)>,
    threshold_percent: u64,
    id: u32,
)
    requires
        torrent::torrents_wf(torrents),
    ensures
        torrent::torrents_wf(torrent::all_refreshed(torrents, threshold_percent)),
        entries::lookup(torrent::all_refreshed(torrents, threshold_percent), id)
            == match entries::lookup(torrents, id) {
            Some(found) => Some(
                if found.upload_cap {
                    found.refreshed(threshold_percent)
                } else {
                    found
                },
            ),
            None => None,
        },
{
    let after = torrent::all_refreshed(torrents, threshold_percent);
    entries::lemma_position_same_keys(torrents, after, id);
    entries::lemma_position(torrents, id);
    entries::lemma_keys_distinct_same_keys(torrents, after);
    assert forall|i: int| 0 <= i < after.len() implies (#[trigger] after[i]).1.wf() by {
        assert(torrents[i].1.wf());
        recording_and_refreshing_keep_wf(torrents[i].1, arbitrary(), 0, threshold_percent);
    }
}

/// No torrent, and no peer or user's total in any of them, is loaded twice.
pub proof fn loading_gives_wf(
    torrents: Seq<DBImportTorrent>,
    upload_totals: Seq<DBImportUploadTotal>,
    peers: Seq<DBImportPeer>,
    threshold_percent: u64,
)
    ensures
        torrent::torrents_wf(torrent::loaded(torrents, upload_totals, peers, threshold_percent)),
{
    let imported = torrent::torrents_of_rows(torrents);
    let totalled = torrent::with_total_rows(imported, upload_totals);
    lemma_torrents_of_rows(torrents, 0);
    lemma_with_total_rows(imported, upload_totals, 0, 0);
    lemma_with_peer_rows(totalled, peers, 0, arbitrary());
    lemma_all_refreshed(torrent::with_peer_rows(totalled, peers), threshold_percent, 0);
}

/// What is loaded is what the rows say. A torrent is in the store if a row is
/// about it, and is as the last such row has it. Each user's total on it, and
/// each client's peer in its swarm, is that of the last row about them. The
/// flag of the peer says whether its user is over the cap where the torrent has
/// one, and is not set where it has none.
pub proof fn loading_takes_the_last_row_of_each(
    torrents: Seq<DBImportTorrent>,
    upload_totals: Seq<DBImportUploadTotal>,
    peers: Seq<DBImportPeer>,
    threshold_percent: u64,
    id: u32,
    user_id: u32,
    client: Index,
)
    ensures
        ({
            let store = torrent::loaded(torrents, upload_totals, peers, threshold_percent);
            match last_torrent_row(torrents, id) {
                Some(row) => match entries::lookup(store, id) {
                    Some(found) => {
                        &&& found == (TorrentView {
                            peers: found.peers,
                            upload_totals: found.upload_totals,
                            ..row.torrent()
                        })
                        &&& entries::lookup(found.upload_totals, user_id) == last_total_row(
                            upload_totals,
                            id,
                            user_id,
                        )
                        &&& entries::lookup(found.peers, client) == match last_peer_row(
                            peers,
                            id,
                            client,
                        ) {
                            Some(row) => Some(
                                row.peer().with_upload_capped(
                                    found.upload_cap && found.caps(
                                        client.user_id,
                                        threshold_percent,
                                    ),
                                ),
                            ),
                            None => None,
                        }
                    },
                    None => false,
                },
                None => entries::lookup(store, id) is None,
            }
        }),
{
    let imported = torrent::torrents_of_rows(torrents);
    let totalled = torrent::with_total_rows(imported, upload_totals);
    let peopled = torrent::with_peer_rows(totalled, peers);
    lemma_torrents_of_rows(torrents, id);
    lemma_with_total_rows(imported, upload_totals, id, user_id);
    lemma_with_peer_rows(totalled, peers, id, client);
    lemma_all_refreshed(peopled, threshold_percent, id);
    if let Some(found) = entries::lookup(peopled, id) {
        let after = found.refreshed(threshold_percent);
        entries::lemma_position_same_keys(found.peers, after.peers, client);
        entries::lemma_position(found.peers, client);
    }
}

/// Every torrent of the store that has upload cap has correct cap flags.
pub open spec fn all_flags_current(
    torrents: Seq<(u32, TorrentView)>,
    threshold_percent: u64,
) -> bool {
    forall|i: int|
        0 <= i < torrents.len() && (#[trigger] torrents[i]).1.upload_cap
            ==> torrents[i].1.flags_current(threshold_percent)
}

/// Recording an upload on a torrent of the store leaves every other torrent as
/// it is, and all correct flags correct.
pub proof fn recording_in_the_store_keeps_all_flags_current(
    torrents: Seq<(u32, TorrentView)>,
    id: u32,
    client: Index,
    uploaded_delta: u64,
    threshold_percent: u64,
    other: u32,
)
    requires
        all_flags_current(torrents, threshold_percent),
        entries::lookup(torrents, id) is Some,
    ensures
        ({
            let recorded = entries::lookup(torrents, id)->0.recorded(
                client,
                uploaded_delta,
                threshold_percent,
            );
            let after = entries::inserted(torrents, id, recorded);
            &&& all_flags_current(after, threshold_percent)
            &&& other != id ==> entries::lookup(after, other) == entries::lookup(torrents, other)
        }),
{
    let torrent = entries::lookup(torrents, id)->0;
    let recorded = torrent.recorded(client, uploaded_delta, threshold_percent);
    entries::lemma_position(torrents, id);
    entries::lookup_after_insert(torrents, id, recorded, other);
    if torrent.upload_cap {
        recording_keeps_flags_current(torrent, client, uploaded_delta, threshold_percent);
    }
}

/// Every torrent stands under its own id.
pub open spec fn under_own_ids(torrents: Seq<(u32, TorrentView)>) -> bool {
    forall|i: int| 0 <= i < torrents.len() ==> (#[trigger] torrents[i]).0 == torrents[i].1.id
}

/// After loading, every cap flag on a torrent with upload cap is correct.
pub proof fn loading_makes_all_flags_current(
    torrents: Seq<DBImportTorrent>,
    upload_totals: Seq<DBImportUploadTotal>,
    peers: Seq<DBImportPeer>,
    threshold_percent: u64,
)
    ensures
        all_flags_current(
            torrent::loaded(torrents, upload_totals, peers, threshold_percent),
            threshold_percent,
        ),
{
    let store = torrent::loaded(torrents, upload_totals, peers, threshold_percent);
    let peopled = torrent::with_peer_rows(
        torrent::with_total_rows(torrent::torrents_of_rows(torrents), upload_totals),
        peers,
    );
    assert forall|i: int| 0 <= i < store.len() && (
    #[trigger] store[i]).1.upload_cap implies store[i].1.flags_current(threshold_percent) by {
        refreshing_makes_flags_current(peopled[i].1, threshold_percent);
    }
}

/// Every torrent is loaded under its own id.
pub proof fn loading_puts_torrents_under_own_ids(
    torrents: Seq<DBImportTorrent>,
    upload_totals: Seq<DBImportUploadTotal>,
    peers: Seq<DBImportPeer>,
    threshold_percent: u64,
)
    ensures
        under_own_ids(torrent::loaded(torrents, upload_totals, peers, threshold_percent)),
{
    lemma_rows_keep_own_ids(torrents, upload_totals, peers);
}

proof fn lemma_rows_keep_own_ids(
    torrents: Seq<DBImportTorrent>,
    upload_totals: Seq<DBImportUploadTotal>,
    peers: Seq<DBImportPeer>,
)
    ensures
        under_own_ids(
            torrent::with_peer_rows(
                torrent::with_total_rows(torrent::torrents_of_rows(torrents), upload_totals),
                peers,
            ),
        ),
    decreases torrents.len() + upload_totals.len() + peers.len(),
{
    if peers.len() > 0 {
        lemma_rows_keep_own_ids(torrents, upload_totals, peers.drop_last());
        entries::lemma_position(
            torrent::with_peer_rows(
                torrent::with_total_rows(torrent::torrents_of_rows(torrents), upload_totals),
                peers.drop_last(),
            ),
            peers.last().torrent_id,
        );
    } else if upload_totals.len() > 0 {
        lemma_rows_keep_own_ids(torrents, upload_totals.drop_last(), peers);
        entries::lemma_position(
            torrent::with_total_rows(
                torrent::torrents_of_rows(torrents),
                upload_totals.drop_last(),
            ),
            upload_totals.last().torrent_id,
        );
    } else if torrents.len() > 0 {
        lemma_rows_keep_own_ids(torrents.drop_last(), upload_totals, peers);
        entries::lemma_position(
            torrent::torrents_of_rows(torrents.drop_last()),
            torrents.last().id,
        );
    }
}

/// Where no two rows are about the same torrent, the torrents are loaded in the
/// order of their rows.
pub proof fn loading_keeps_the_order_of_the_rows(
    torrents: Seq<DBImportTorrent>,
    upload_totals: Seq<DBImportUploadTotal>,
    peers: Seq<DBImportPeer>,
    threshold_percent: u64,
)
    requires
        forall|i: int, j: int|
            0 <= i < j < torrents.len() ==> (#[trigger] torrents[i]).id != (
            #[trigger] torrents[j]).id,
    ensures
        ({
            let store = torrent::loaded(torrents, upload_totals, peers, threshold_percent);
            &&& store.len() == torrents.len()
            &&& forall|i: int|
                0 <= i < torrents.len() ==> (#[trigger] store[i]).0 == torrents[i].id
        }),
{
    let imported = torrent::torrents_of_rows(torrents);
    let totalled = torrent::with_total_rows(imported, upload_totals);
    lemma_order_of_torrent_rows(torrents);
    torrent::lemma_rows_keep_torrents(imported, upload_totals, Seq::empty());
    torrent::lemma_rows_keep_torrents(totalled, Seq::empty(), peers);
    let store = torrent::loaded(torrents, upload_totals, peers, threshold_percent);
    assert forall|i: int| 0 <= i < torrents.len() implies (#[trigger] store[i]).0
        == torrents[i].id by {
        assert(totalled[i].0 == imported[i].0);
        assert(torrent::with_peer_rows(totalled, peers)[i].0 == totalled[i].0);
    }
}

proof fn lemma_order_of_torrent_rows(rows: Seq<DBImportTorrent>)
    requires
        forall|i: int, j: int|
            0 <= i < j < rows.len() ==> (#[trigger] rows[i]).id != (#[trigger] rows[j]).id,
    ensures
        torrent::torrents_of_rows(rows).len() == rows.len(),
        forall|i: int|
            0 <= i < rows.len() ==> (#[trigger] torrent::torrents_of_rows(rows)[i]).0
                == rows[i].id,
    decreases rows.len(),
{
    if rows.len() > 0 {
        let init = rows.drop_last();
        assert(forall|i: int| 0 <= i < init.len() ==> init[i] == #[trigger] rows[i]);
        lemma_order_of_torrent_rows(init);
        entries::lemma_position(torrent::torrents_of_rows(init), rows.last().id);
    }
}

/// Only torrents with upload cap hold totals.
pub open spec fn totals_only_with_upload_cap(torrents: Seq<(u32, TorrentView)>) -> bool {
    forall|i: int|
        0 <= i < torrents.len() && !(#[trigger] torrents[i]).1.upload_cap
            ==> torrents[i].1.upload_totals.len() == 0
}

/// Where the rows of the totals are about torrents with upload cap, as the
/// query for them has it, no other torrent is loaded with totals.
pub proof fn loading_fills_totals_only_with_upload_cap(
    torrents: Seq<DBImportTorrent>,
    upload_totals: Seq<DBImportUploadTotal>,
    peers: Seq<DBImportPeer>,
    threshold_percent: u64,
)
    requires
        forall|i: int|
            0 <= i < upload_totals.len() ==> match last_torrent_row(
                torrents,
                (#[trigger] upload_totals[i]).torrent_id,
            ) {
                Some(row) => row.upload_cap,
                None => true,
            },
    ensures
        totals_only_with_upload_cap(
            torrent::loaded(torrents, upload_totals, peers, threshold_percent),
        ),
{
    let store = torrent::loaded(torrents, upload_totals, peers, threshold_percent);
    loading_gives_wf(torrents, upload_totals, peers, threshold_percent);
    assert forall|i: int| 0 <= i < store.len() && !(
    #[trigger] store[i]).1.upload_cap implies store[i].1.upload_totals.len() == 0 by {
        let id = store[i].0;
        let totals = store[i].1.upload_totals;
        entries::lemma_position_at(store, id, i);
        if totals.len() > 0 {
            let user_id = totals[0].0;
            entries::lemma_position(totals, user_id);
            loading_takes_the_last_row_of_each(
                torrents,
                upload_totals,
                peers,
                threshold_percent,
                id,
                user_id,
                arbitrary(),
            );
            lemma_last_total_row(upload_totals, id, user_id);
        }
    }
}

/// A total that is found is that of one of the rows, and none is found only
/// where no row is about the user and the torrent.
proof fn lemma_last_total_row(rows: Seq<DBImportUploadTotal>, id: u32, user_id: u32)
    ensures
        match last_total_row(rows, id, user_id) {
            Some(total) => exists|i: int|
                0 <= i < rows.len() && #[trigger] rows[i] == (DBImportUploadTotal {
                    user_id,
                    torrent_id: id,
                    actual_uploaded: total,
                }),
            None => forall|i: int|
                0 <= i < rows.len() ==> (#[trigger] rows[i]).torrent_id != id || rows[i].user_id
                    != user_id,
        },
    decreases rows.len(),
{
    if rows.len() > 0 {
        let init = rows.drop_last();
        let last = rows[rows.len() - 1];
        lemma_last_total_row(init, id, user_id);
        assert(forall|i: int| 0 <= i < init.len() ==> init[i] == #[trigger] rows[i]);
        if last.torrent_id != id || last.user_id != user_id {
            if let Some(total) = last_total_row(init, id, user_id) {
                let i = choose|i: int|
                    0 <= i < init.len() && #[trigger] init[i] == (DBImportUploadTotal {
                        user_id,
                        torrent_id: id,
                        actual_uploaded: total,
                    });
                assert(rows[i] == init[i]);
            }
        }
    }
}

/// An upload that is found is that of one of the rows, and none is found only
/// where no row is the user's.
proof fn lemma_last_upload_of(rows: Seq<DBUploadTotal>, user_id: u32)
    ensures
        match upload_total::last_upload_of(rows, user_id) {
            Some(total) => exists|i: int|
                0 <= i < rows.len() && #[trigger] rows[i] == (DBUploadTotal {
                    user_id,
                    actual_uploaded: total,
                }),
            None => forall|i: int| 0 <= i < rows.len() ==> (#[trigger] rows[i]).user_id != user_id,
        },
    decreases rows.len(),
{
    if rows.len() > 0 {
        let init = rows.drop_last();
        let last = rows[rows.len() - 1];
        lemma_last_upload_of(init, user_id);
        assert(forall|i: int| 0 <= i < init.len() ==> init[i] == #[trigger] rows[i]);
        if last.user_id != user_id {
            if let Some(total) = upload_total::last_upload_of(init, user_id) {
                let i = choose|i: int|
                    0 <= i < init.len() && #[trigger] init[i] == (DBUploadTotal {
                        user_id,
                        actual_uploaded: total,
                    });
                assert(rows[i] == init[i]);
            }
        }
    }
}

/// The rows of `history` are exactly those of `upload_totals` that are about
/// the torrent.
pub open spec fn history_of_torrent(
    upload_totals: Seq<DBImportUploadTotal>,
    history: Seq<DBUploadTotal>,
    id: u32,
) -> bool {
    forall|user_id: u32, actual_uploaded: u64|
        #[trigger] history.contains(DBUploadTotal { user_id, actual_uploaded })
            <==> upload_totals.contains(
            DBImportUploadTotal { user_id, torrent_id: id, actual_uploaded },
        )
}

/// Loading a torrent's totals together with all torrents, or for that torrent
/// alone, gives the same total of every user, on the same rows of history with
/// at most one row for each user. So switching the upload cap on later and
/// starting with it on load the same totals.
pub proof fn both_ways_of_loading_give_the_same_totals(
    torrents: Seq<DBImportTorrent>,
    upload_totals: Seq<DBImportUploadTotal>,
    peers: Seq<DBImportPeer>,
    threshold_percent: u64,
    id: u32,
    user_id: u32,
    history: Seq<DBUploadTotal>,
)
    requires
        forall|i: int, j: int|
            0 <= i < j < history.len() ==> (#[trigger] history[i]).user_id != (
            #[trigger] history[j]).user_id,
        history_of_torrent(upload_totals, history, id),
    ensures
        match entries::lookup(
            torrent::loaded(torrents, upload_totals, peers, threshold_percent),
            id,
        ) {
            Some(found) => entries::lookup(found.upload_totals, user_id) == entries::lookup(
                upload_total::totals_of_rows(history),
                user_id,
            ),
            None => true,
        },
{
    let together = last_total_row(upload_totals, id, user_id);
    let alone = upload_total::last_upload_of(history, user_id);
    loading_takes_the_last_row_of_each(
        torrents,
        upload_totals,
        peers,
        threshold_percent,
        id,
        user_id,
        arbitrary(),
    );
    upload_total::loaded_totals_are_the_last_of_each_user(history, user_id);
    lemma_last_total_row(upload_totals, id, user_id);
    lemma_last_upload_of(history, user_id);
    if let Some(actual_uploaded) = together {
        assert(upload_totals.contains(
            DBImportUploadTotal { user_id, torrent_id: id, actual_uploaded },
        ));
        assert(history.contains(DBUploadTotal { user_id, actual_uploaded }));
    }
    if let Some(actual_uploaded) = alone {
        assert(history.contains(DBUploadTotal { user_id, actual_uploaded }));
        assert(upload_totals.contains(
            DBImportUploadTotal { user_id, torrent_id: id, actual_uploaded },
        ));
    }
    assert(together == alone);
}

/// Recording uploads never gives totals to a torrent without upload cap.
pub proof fn recording_fills_totals_only_with_upload_cap(
    torrents: Seq<(u32, TorrentView)>,
    id: u32,
    client: Index,
    uploaded_delta: u64,
    threshold_percent: u64,
)
    requires
        totals_only_with_upload_cap(torrents),
        entries::lookup(torrents, id) is Some,
    ensures
        totals_only_with_upload_cap(
            entries::inserted(
                torrents,
                id,
                entries::lookup(torrents, id)->0.recorded(
                    client,
                    uploaded_delta,
                    threshold_percent,
                ),
            ),
        ),
{
    entries::lemma_position(torrents, id);
}

} // verus!
