//! What recording, refreshing and loading do, said field by field and number by
//! number.

use vstd::prelude::*;

use crate::model::TorrentStatus;
use crate::store::entries;
use crate::store::laws;
use crate::store::peer::Index;
use crate::store::torrent;
use crate::store::torrent::{
    DBImportPeer, DBImportTorrent, DBImportUploadTotal, Torrent, TorrentView,
};

verus! {

/// The view of a torrent hides none of its fields.
pub proof fn view_shows_every_field(torrent: Torrent)
    ensures
        torrent@.id == torrent.id,
        torrent@.status == torrent.status,
        torrent@.is_deleted == torrent.is_deleted,
        torrent@.seeders == torrent.seeders,
        torrent@.leechers == torrent.leechers,
        torrent@.times_completed == torrent.times_completed,
        torrent@.download_factor == torrent.download_factor,
        torrent@.upload_factor == torrent.upload_factor,
        torrent@.size == torrent.size,
        torrent@.upload_cap == torrent.upload_cap,
        torrent@.peers == torrent.peers@,
        torrent@.upload_totals == torrent.upload_totals@,
{
}

/// Of a blank torrent nothing is known: every number is 0, nothing is set, and
/// nobody is in it.
pub proof fn blank_has_nothing()
    ensures
        TorrentView::blank().id == 0,
        TorrentView::blank().status == TorrentStatus(0),
        !TorrentView::blank().is_deleted,
        TorrentView::blank().peers.len() == 0,
        TorrentView::blank().seeders == 0,
        TorrentView::blank().leechers == 0,
        TorrentView::blank().times_completed == 0,
        TorrentView::blank().download_factor == 0,
        TorrentView::blank().upload_factor == 0,
        TorrentView::blank().size == 0,
        !TorrentView::blank().upload_cap,
        TorrentView::blank().upload_totals.len() == 0,
{
}

/// A user with the total `uploaded` is capped exactly if a threshold and a size
/// are set and a hundred times the total is at least the size times the
/// threshold. A user without a total has uploaded nothing.
pub proof fn user_is_capped_at_the_percentage(
    torrent: TorrentView,
    user_id: u32,
    threshold_percent: u64,
)
    ensures
        ({
            let uploaded: int = match entries::lookup(torrent.upload_totals, user_id) {
                Some(total) => total as int,
                None => 0,
            };
            torrent.caps(user_id, threshold_percent) <==> threshold_percent != 0 && torrent.size
                != 0 && uploaded * 100 >= torrent.size * threshold_percent
        }),
{
}

/// Flags are current exactly if each says whether its user's total, a hundred
/// times, is at least the size times the threshold.
pub proof fn current_flags_follow_the_percentage(torrent: TorrentView, threshold_percent: u64)
    ensures
        torrent.flags_current(threshold_percent) <==> forall|i: int|
            0 <= i < torrent.peers.len() ==> ((#[trigger] torrent.peers[i]).1.is_upload_capped
                <==> threshold_percent != 0 && torrent.size != 0 && (match entries::lookup(
                torrent.upload_totals,
                torrent.peers[i].0.user_id,
            ) {
                Some(total) => total as int,
                None => 0,
            }) * 100 >= torrent.size * threshold_percent),
{
    if torrent.flags_current(threshold_percent) {
        assert forall|i: int| 0 <= i < torrent.peers.len() implies ((
        #[trigger] torrent.peers[i]).1.is_upload_capped <==> threshold_percent != 0 && torrent.size
            != 0 && (match entries::lookup(torrent.upload_totals, torrent.peers[i].0.user_id) {
            Some(total) => total as int,
            None => 0,
        }) * 100 >= torrent.size * threshold_percent) by {
            user_is_capped_at_the_percentage(
                torrent,
                torrent.peers[i].0.user_id,
                threshold_percent,
            );
        }
    }
}

/// Recording an upload on a torrent with upload cap, where `total` is what the
/// user had uploaded before and uploads now, at most the largest that can be
/// held: the user is capped, and every peer of theirs says so, exactly if a
/// threshold and a size are set and a hundred times `total` is at least the
/// size times the threshold. Whatever was uploaded, `total` is theirs after.
pub proof fn recording_caps_at_the_percentage(
    torrent: TorrentView,
    client: Index,
    uploaded_delta: u64,
    threshold_percent: u64,
)
    requires
        torrent.upload_cap,
    ensures
        ({
            let before: int = match entries::lookup(torrent.upload_totals, client.user_id) {
                Some(total) => total as int,
                None => 0,
            };
            let total: int = if before + uploaded_delta < u64::MAX {
                before + uploaded_delta
            } else {
                u64::MAX as int
            };
            let capped = threshold_percent != 0 && torrent.size != 0 && total * 100 >= torrent.size
                * threshold_percent;
            let after = torrent.recorded(client, uploaded_delta, threshold_percent);
            &&& torrent.total_after(client.user_id, uploaded_delta) == total
            &&& torrent.caps_after(client.user_id, uploaded_delta, threshold_percent) == capped
            &&& forall|i: int|
                0 <= i < after.peers.len() && (#[trigger] after.peers[i]).0.user_id
                    == client.user_id ==> after.peers[i].1.is_upload_capped == capped
            &&& uploaded_delta > 0 ==> entries::lookup(after.upload_totals, client.user_id)
                == Some(total as u64)
            &&& uploaded_delta == 0 ==> after.upload_totals == torrent.upload_totals
        }),
{
    entries::lookup_after_insert(
        torrent.upload_totals,
        client.user_id,
        torrent.total_after(client.user_id, uploaded_delta),
        client.user_id,
    );
}

/// What recording answers, and the flags that it sets, follow from the user's
/// total, the size and the threshold alone: two torrents with upload cap that
/// agree in these give the same, however they differ otherwise, and whichever
/// of the user's clients announces.
pub proof fn recording_depends_on_total_size_and_threshold_alone(
    left: TorrentView,
    right: TorrentView,
    left_client: Index,
    right_client: Index,
    uploaded_delta: u64,
    threshold_percent: u64,
    i: int,
    j: int,
)
    requires
        left.upload_cap,
        right.upload_cap,
        left.size == right.size,
        entries::lookup(left.upload_totals, left_client.user_id) == entries::lookup(
            right.upload_totals,
            right_client.user_id,
        ),
    ensures
        left.caps_after(left_client.user_id, uploaded_delta, threshold_percent)
            == right.caps_after(right_client.user_id, uploaded_delta, threshold_percent),
        ({
            let left_after = left.recorded(left_client, uploaded_delta, threshold_percent);
            let right_after = right.recorded(right_client, uploaded_delta, threshold_percent);
            &&& entries::lookup(left_after.upload_totals, left_client.user_id) == entries::lookup(
                right_after.upload_totals,
                right_client.user_id,
            )
            &&& 0 <= i < left_after.peers.len() && 0 <= j < right_after.peers.len()
                && left_after.peers[i].0.user_id == left_client.user_id
                && right_after.peers[j].0.user_id == right_client.user_id
                ==> left_after.peers[i].1.is_upload_capped
                == right_after.peers[j].1.is_upload_capped
        }),
{
    recording_caps_at_the_percentage(left, left_client, uploaded_delta, threshold_percent);
    recording_caps_at_the_percentage(right, right_client, uploaded_delta, threshold_percent);
}

/// Recording an upload changes nothing about a torrent but its totals and the
/// cap flags of the user's peers. Every peer stays where it is.
pub proof fn recording_changes_nothing_else(
    torrent: TorrentView,
    client: Index,
    uploaded_delta: u64,
    threshold_percent: u64,
    i: int,
    other: u32,
)
    ensures
        ({
            let after = torrent.recorded(client, uploaded_delta, threshold_percent);
            &&& after.id == torrent.id
            &&& after.status == torrent.status
            &&& after.is_deleted == torrent.is_deleted
            &&& after.seeders == torrent.seeders
            &&& after.leechers == torrent.leechers
            &&& after.times_completed == torrent.times_completed
            &&& after.download_factor == torrent.download_factor
            &&& after.upload_factor == torrent.upload_factor
            &&& after.size == torrent.size
            &&& after.upload_cap == torrent.upload_cap
            &&& after.peers.len() == torrent.peers.len()
            &&& other != client.user_id ==> entries::lookup(after.upload_totals, other)
                == entries::lookup(torrent.upload_totals, other)
            &&& !torrent.upload_cap ==> after.upload_totals == torrent.upload_totals
            &&& 0 <= i < torrent.peers.len() ==> {
                &&& after.peers[i].0 == torrent.peers[i].0
                &&& after.peers[i].1.ip_address == torrent.peers[i].1.ip_address
                &&& after.peers[i].1.port == torrent.peers[i].1.port
                &&& after.peers[i].1.is_seeder == torrent.peers[i].1.is_seeder
                &&& after.peers[i].1.is_active == torrent.peers[i].1.is_active
                &&& after.peers[i].1.is_visible == torrent.peers[i].1.is_visible
                &&& after.peers[i].1.is_connectable == torrent.peers[i].1.is_connectable
                &&& after.peers[i].1.has_sent_completed == torrent.peers[i].1.has_sent_completed
                &&& after.peers[i].1.updated_at == torrent.peers[i].1.updated_at
                &&& after.peers[i].1.uploaded == torrent.peers[i].1.uploaded
                &&& after.peers[i].1.downloaded == torrent.peers[i].1.downloaded
                &&& !torrent.upload_cap || torrent.peers[i].0.user_id != client.user_id
                    ==> after.peers[i].1.is_upload_capped == torrent.peers[i].1.is_upload_capped
            }
        }),
{
    entries::lookup_after_insert(
        torrent.upload_totals,
        client.user_id,
        torrent.total_after(client.user_id, uploaded_delta),
        other,
    );
}

/// A user without a total gets theirs after all others on the first upload of
/// anything. Otherwise every user's total stays where it is.
pub proof fn recording_keeps_the_order_of_the_totals(
    torrent: TorrentView,
    client: Index,
    uploaded_delta: u64,
    threshold_percent: u64,
    i: int,
)
    ensures
        ({
            let before = torrent.upload_totals;
            let after = torrent.recorded(client, uploaded_delta, threshold_percent).upload_totals;
            let is_new = torrent.upload_cap && uploaded_delta > 0 && entries::lookup(
                before,
                client.user_id,
            ) is None;
            &&& after.len() == before.len() + if is_new {
                1int
            } else {
                0
            }
            &&& 0 <= i < before.len() ==> after[i].0 == before[i].0
            &&& 0 <= i < before.len() && before[i].0 != client.user_id ==> after[i] == before[i]
            &&& is_new ==> after[before.len() as int].0 == client.user_id
        }),
{
    entries::lemma_position(torrent.upload_totals, client.user_id);
}

/// Refreshing gives every peer the flag of its user: set exactly if a threshold
/// and a size are set and a hundred times the user's total is at least the size
/// times the threshold. It changes nothing else, and every peer stays where it
/// is.
pub proof fn refreshing_caps_at_the_percentage(
    torrent: TorrentView,
    threshold_percent: u64,
    i: int,
)
    ensures
        ({
            let after = torrent.refreshed(threshold_percent);
            &&& after.id == torrent.id
            &&& after.status == torrent.status
            &&& after.is_deleted == torrent.is_deleted
            &&& after.seeders == torrent.seeders
            &&& after.leechers == torrent.leechers
            &&& after.times_completed == torrent.times_completed
            &&& after.download_factor == torrent.download_factor
            &&& after.upload_factor == torrent.upload_factor
            &&& after.size == torrent.size
            &&& after.upload_cap == torrent.upload_cap
            &&& after.upload_totals == torrent.upload_totals
            &&& after.peers.len() == torrent.peers.len()
            &&& 0 <= i < torrent.peers.len() ==> {
                let uploaded: int = match entries::lookup(
                    torrent.upload_totals,
                    torrent.peers[i].0.user_id,
                ) {
                    Some(total) => total as int,
                    None => 0,
                };
                &&& after.peers[i].0 == torrent.peers[i].0
                &&& after.peers[i].1.is_upload_capped <==> threshold_percent != 0 && torrent.size
                    != 0 && uploaded * 100 >= torrent.size * threshold_percent
                &&& after.peers[i].1.ip_address == torrent.peers[i].1.ip_address
                &&& after.peers[i].1.port == torrent.peers[i].1.port
                &&& after.peers[i].1.is_seeder == torrent.peers[i].1.is_seeder
                &&& after.peers[i].1.is_active == torrent.peers[i].1.is_active
                &&& after.peers[i].1.is_visible == torrent.peers[i].1.is_visible
                &&& after.peers[i].1.is_connectable == torrent.peers[i].1.is_connectable
                &&& after.peers[i].1.has_sent_completed == torrent.peers[i].1.has_sent_completed
                &&& after.peers[i].1.updated_at == torrent.peers[i].1.updated_at
                &&& after.peers[i].1.uploaded == torrent.peers[i].1.uploaded
                &&& after.peers[i].1.downloaded == torrent.peers[i].1.downloaded
            }
        }),
{
}

/// The flags that refreshing sets follow from the totals, the size and the
/// threshold alone: two peers whose users have uploaded the same get the same
/// flag on any two torrents of one size, however these differ otherwise.
pub proof fn refreshing_depends_on_total_size_and_threshold_alone(
    left: TorrentView,
    right: TorrentView,
    threshold_percent: u64,
    i: int,
    j: int,
)
    requires
        left.size == right.size,
        0 <= i < left.peers.len(),
        0 <= j < right.peers.len(),
        entries::lookup(left.upload_totals, left.peers[i].0.user_id) == entries::lookup(
            right.upload_totals,
            right.peers[j].0.user_id,
        ),
    ensures
        left.refreshed(threshold_percent).peers[i].1.is_upload_capped == right.refreshed(
            threshold_percent,
        ).peers[j].1.is_upload_capped,
{
}

/// Refreshing a store refreshes each torrent that has upload cap where it
/// stands, and leaves the others as they are.
pub proof fn refreshing_a_store_passes_over_torrents_without_upload_cap(
    torrents: Seq<(u32, TorrentView)>,
    threshold_percent: u64,
    i: int,
)
    ensures
        torrent::all_refreshed(torrents, threshold_percent).len() == torrents.len(),
        0 <= i < torrents.len() ==> {
            let after = torrent::all_refreshed(torrents, threshold_percent)[i];
            &&& after.0 == torrents[i].0
            &&& torrents[i].1.upload_cap ==> after.1 == torrents[i].1.refreshed(threshold_percent)
            &&& !torrents[i].1.upload_cap ==> after.1 == torrents[i].1
        },
{
}

/// The row at `r` is the last one about its torrent if no later row is.
proof fn lemma_last_torrent_row_at(rows: Seq<DBImportTorrent>, r: int)
    requires
        0 <= r < rows.len(),
        forall|s: int| r < s < rows.len() ==> (#[trigger] rows[s]).id != rows[r].id,
    ensures
        laws::last_torrent_row(rows, rows[r].id) == Some(rows[r]),
    decreases rows.len(),
{
    let init = rows.drop_last();
    if r < init.len() {
        assert(forall|s: int| 0 <= s < init.len() ==> init[s] == #[trigger] rows[s]);
        assert(rows.last() == rows[rows.len() - 1]);
        lemma_last_torrent_row_at(init, r);
    }
}

/// There is no last row about a torrent that no row is about.
proof fn lemma_no_torrent_row(rows: Seq<DBImportTorrent>, id: u32)
    requires
        forall|s: int| 0 <= s < rows.len() ==> (#[trigger] rows[s]).id != id,
    ensures
        laws::last_torrent_row(rows, id) is None,
    decreases rows.len(),
{
    if rows.len() > 0 {
        let init = rows.drop_last();
        assert(forall|s: int| 0 <= s < init.len() ==> init[s] == #[trigger] rows[s]);
        assert(rows.last() == rows[rows.len() - 1]);
        lemma_no_torrent_row(init, id);
    }
}

/// The last row about the user on the torrent is the one at `r`, if that one is
/// about them and no later one is. There is none if no row is about them.
proof fn lemma_last_total_row_at(
    rows: Seq<DBImportUploadTotal>,
    id: u32,
    user_id: u32,
    r: int,
)
    ensures
        0 <= r < rows.len() && rows[r].torrent_id == id && rows[r].user_id == user_id && (forall|
            s: int,
        |
            r < s < rows.len() ==> (#[trigger] rows[s]).torrent_id != id || rows[s].user_id
                != user_id) ==> laws::last_total_row(rows, id, user_id) == Some(
            rows[r].actual_uploaded,
        ),
        (forall|s: int|
            0 <= s < rows.len() ==> (#[trigger] rows[s]).torrent_id != id || rows[s].user_id
                != user_id) ==> laws::last_total_row(rows, id, user_id) is None,
    decreases rows.len(),
{
    if rows.len() > 0 {
        let init = rows.drop_last();
        assert(forall|s: int| 0 <= s < init.len() ==> init[s] == #[trigger] rows[s]);
        assert(rows.last() == rows[rows.len() - 1]);
        lemma_last_total_row_at(init, id, user_id, r);
    }
}

/// The last row about the client on the torrent is the one at `r`, if that one
/// is about it and no later one is. There is none if no row is about it.
proof fn lemma_last_peer_row_at(rows: Seq<DBImportPeer>, id: u32, client: Index, r: int)
    ensures
        0 <= r < rows.len() && rows[r].torrent_id == id && rows[r].user_id == client.user_id
            && rows[r].peer_id == client.peer_id && (forall|s: int|
            r < s < rows.len() ==> (#[trigger] rows[s]).torrent_id != id || rows[s].user_id
                != client.user_id || rows[s].peer_id != client.peer_id) ==> laws::last_peer_row(
            rows,
            id,
            client,
        ) == Some(rows[r]),
        (forall|s: int|
            0 <= s < rows.len() ==> (#[trigger] rows[s]).torrent_id != id || rows[s].user_id
                != client.user_id || rows[s].peer_id != client.peer_id) ==> laws::last_peer_row(
            rows,
            id,
            client,
        ) is None,
    decreases rows.len(),
{
    if rows.len() > 0 {
        let init = rows.drop_last();
        assert(forall|s: int| 0 <= s < init.len() ==> init[s] == #[trigger] rows[s]);
        assert(rows.last() == rows[rows.len() - 1]);
        lemma_last_peer_row_at(init, id, client, r);
    }
}

/// A torrent is loaded as the last row about it, here the one at `r`, has it,
/// column by column.
pub proof fn loading_takes_every_column_of_a_torrent(
    torrents: Seq<DBImportTorrent>,
    upload_totals: Seq<DBImportUploadTotal>,
    peers: Seq<DBImportPeer>,
    threshold_percent: u64,
    r: int,
)
    requires
        0 <= r < torrents.len(),
        forall|s: int| r < s < torrents.len() ==> (#[trigger] torrents[s]).id != torrents[r].id,
    ensures
        match entries::lookup(
            torrent::loaded(torrents, upload_totals, peers, threshold_percent),
            torrents[r].id,
        ) {
            Some(found) => {
                &&& found.id == torrents[r].id
                &&& found.status == torrents[r].status
                &&& found.is_deleted == torrents[r].is_deleted
                &&& found.seeders == torrents[r].seeders
                &&& found.leechers == torrents[r].leechers
                &&& found.times_completed == torrents[r].times_completed
                &&& found.download_factor == torrents[r].download_factor
                &&& found.upload_factor == torrents[r].upload_factor
                &&& found.size == torrents[r].size
                &&& found.upload_cap == torrents[r].upload_cap
            },
            None => false,
        },
{
    lemma_last_torrent_row_at(torrents, r);
    laws::loading_takes_the_last_row_of_each(
        torrents,
        upload_totals,
        peers,
        threshold_percent,
        torrents[r].id,
        0,
        arbitrary(),
    );
}

/// A torrent that no row of a torrent is about is not loaded, whatever totals
/// and peers it has.
pub proof fn loading_makes_no_torrent_up(
    torrents: Seq<DBImportTorrent>,
    upload_totals: Seq<DBImportUploadTotal>,
    peers: Seq<DBImportPeer>,
    threshold_percent: u64,
    id: u32,
)
    requires
        forall|s: int| 0 <= s < torrents.len() ==> (#[trigger] torrents[s]).id != id,
    ensures
        entries::lookup(
            torrent::loaded(torrents, upload_totals, peers, threshold_percent),
            id,
        ) is None,
{
    lemma_no_torrent_row(torrents, id);
    laws::loading_takes_the_last_row_of_each(
        torrents,
        upload_totals,
        peers,
        threshold_percent,
        id,
        0,
        arbitrary(),
    );
}

/// On a loaded torrent, a user's total is the upload of the last row about
/// both, here the one at `u`. A user that no row on the torrent is about has no
/// total.
pub proof fn loading_takes_the_column_of_a_total(
    torrents: Seq<DBImportTorrent>,
    upload_totals: Seq<DBImportUploadTotal>,
    peers: Seq<DBImportPeer>,
    threshold_percent: u64,
    r: int,
    user_id: u32,
    u: int,
)
    requires
        0 <= r < torrents.len(),
    ensures
        match entries::lookup(
            torrent::loaded(torrents, upload_totals, peers, threshold_percent),
            torrents[r].id,
        ) {
            Some(found) => {
                &&& 0 <= u < upload_totals.len() && upload_totals[u].torrent_id == torrents[r].id
                    && upload_totals[u].user_id == user_id && (forall|s: int|
                    u < s < upload_totals.len() ==> (#[trigger] upload_totals[s]).torrent_id
                        != torrents[r].id || upload_totals[s].user_id != user_id)
                    ==> entries::lookup(found.upload_totals, user_id) == Some(
                    upload_totals[u].actual_uploaded,
                )
                &&& (forall|s: int|
                    0 <= s < upload_totals.len() ==> (#[trigger] upload_totals[s]).torrent_id
                        != torrents[r].id || upload_totals[s].user_id != user_id)
                    ==> entries::lookup(found.upload_totals, user_id) is None
            },
            None => false,
        },
{
    let id = torrents[r].id;
    lemma_loaded(torrents, upload_totals, peers, threshold_percent, r);
    lemma_last_total_row_at(upload_totals, id, user_id, u);
    laws::loading_takes_the_last_row_of_each(
        torrents,
        upload_totals,
        peers,
        threshold_percent,
        id,
        user_id,
        arbitrary(),
    );
}

/// A torrent that a row is about is loaded.
proof fn lemma_loaded(
    torrents: Seq<DBImportTorrent>,
    upload_totals: Seq<DBImportUploadTotal>,
    peers: Seq<DBImportPeer>,
    threshold_percent: u64,
    r: int,
)
    requires
        0 <= r < torrents.len(),
    ensures
        entries::lookup(
            torrent::loaded(torrents, upload_totals, peers, threshold_percent),
            torrents[r].id,
        ) is Some,
    decreases torrents.len() - r,
{
    if exists|s: int| r < s < torrents.len() && (#[trigger] torrents[s]).id == torrents[r].id {
        let s = choose|s: int|
            r < s < torrents.len() && (#[trigger] torrents[s]).id == torrents[r].id;
        lemma_loaded(torrents, upload_totals, peers, threshold_percent, s);
    } else {
        loading_takes_every_column_of_a_torrent(
            torrents,
            upload_totals,
            peers,
            threshold_percent,
            r,
        );
    }
}

/// On a loaded torrent, a client's peer is as the last row about both, here the
/// one at `p`, has it, column by column. It has not sent completed, and its cap
/// flag is set exactly if the torrent has upload cap, a threshold and a size
/// are set, and a hundred times the user's total is at least the size times the
/// threshold.
pub proof fn loading_takes_every_column_of_a_peer(
    torrents: Seq<DBImportTorrent>,
    upload_totals: Seq<DBImportUploadTotal>,
    peers: Seq<DBImportPeer>,
    threshold_percent: u64,
    r: int,
    p: int,
)
    requires
        0 <= r < torrents.len(),
        0 <= p < peers.len(),
        peers[p].torrent_id == torrents[r].id,
        forall|s: int|
            p < s < peers.len() ==> (#[trigger] peers[s]).torrent_id != peers[p].torrent_id
                || peers[s].user_id != peers[p].user_id || peers[s].peer_id != peers[p].peer_id,
    ensures
        match entries::lookup(
            torrent::loaded(torrents, upload_totals, peers, threshold_percent),
            torrents[r].id,
        ) {
            Some(found) => match entries::lookup(
                found.peers,
                Index { user_id: peers[p].user_id, peer_id: peers[p].peer_id },
            ) {
                Some(peer) => {
                    let uploaded: int = match entries::lookup(
                        found.upload_totals,
                        peers[p].user_id,
                    ) {
                        Some(total) => total as int,
                        None => 0,
                    };
                    &&& peers[p].ip_address is Some ==> peers[p].ip_address == Some(peer.ip_address)
                    &&& peer.port == peers[p].port
                    &&& peer.is_seeder == peers[p].is_seeder
                    &&& peer.is_active == peers[p].is_active
                    &&& peer.is_visible == peers[p].is_visible
                    &&& peer.is_connectable == peers[p].is_connectable
                    &&& !peer.has_sent_completed
                    &&& peers[p].updated_at is Some ==> peers[p].updated_at == Some(peer.updated_at)
                    &&& peer.uploaded == peers[p].uploaded
                    &&& peer.downloaded == peers[p].downloaded
                    &&& peer.is_upload_capped <==> found.upload_cap && threshold_percent != 0
                        && found.size != 0 && uploaded * 100 >= found.size * threshold_percent
                },
                None => false,
            },
            None => false,
        },
{
    let client = Index { user_id: peers[p].user_id, peer_id: peers[p].peer_id };
    lemma_loaded(torrents, upload_totals, peers, threshold_percent, r);
    lemma_last_peer_row_at(peers, torrents[r].id, client, p);
    laws::loading_takes_the_last_row_of_each(
        torrents,
        upload_totals,
        peers,
        threshold_percent,
        torrents[r].id,
        0,
        client,
    );
}

/// A client that no row of a torrent's peers is about is not in its swarm.
pub proof fn loading_makes_no_peer_up(
    torrents: Seq<DBImportTorrent>,
    upload_totals: Seq<DBImportUploadTotal>,
    peers: Seq<DBImportPeer>,
    threshold_percent: u64,
    id: u32,
    client: Index,
)
    requires
        forall|s: int|
            0 <= s < peers.len() ==> (#[trigger] peers[s]).torrent_id != id || peers[s].user_id
                != client.user_id || peers[s].peer_id != client.peer_id,
    ensures
        match entries::lookup(
            torrent::loaded(torrents, upload_totals, peers, threshold_percent),
            id,
        ) {
            Some(found) => entries::lookup(found.peers, client) is None,
            None => true,
        },
{
    lemma_last_peer_row_at(peers, id, client, 0);
    laws::loading_takes_the_last_row_of_each(
        torrents,
        upload_totals,
        peers,
        threshold_percent,
        id,
        0,
        client,
    );
}

/// Torrents stand in the order of their first rows: here the row at `j` is the
/// first about its torrent, and the row at `i` comes before it.
pub proof fn loading_keeps_the_order_of_first_torrent_rows(
    torrents: Seq<DBImportTorrent>,
    upload_totals: Seq<DBImportUploadTotal>,
    peers: Seq<DBImportPeer>,
    threshold_percent: u64,
    i: int,
    j: int,
)
    requires
        0 <= i < j < torrents.len(),
        forall|k: int| 0 <= k < j ==> (#[trigger] torrents[k]).id != torrents[j].id,
    ensures
        ({
            let store = torrent::loaded(torrents, upload_totals, peers, threshold_percent);
            match (
                entries::position(store, torrents[i].id),
                entries::position(store, torrents[j].id),
            ) {
                (Some(earlier), Some(later)) => earlier < later,
                _ => false,
            }
        }),
{
    let imported = torrent::torrents_of_rows(torrents);
    let totalled = torrent::with_total_rows(imported, upload_totals);
    let peopled = torrent::with_peer_rows(totalled, peers);
    let store = torrent::loaded(torrents, upload_totals, peers, threshold_percent);
    torrent::lemma_rows_keep_torrents(imported, upload_totals, Seq::empty());
    torrent::lemma_rows_keep_torrents(totalled, Seq::empty(), peers);
    entries::lemma_position_same_keys(totalled, imported, torrents[i].id);
    entries::lemma_position_same_keys(peopled, totalled, torrents[i].id);
    entries::lemma_position_same_keys(peopled, store, torrents[i].id);
    entries::lemma_position_same_keys(totalled, imported, torrents[j].id);
    entries::lemma_position_same_keys(peopled, totalled, torrents[j].id);
    entries::lemma_position_same_keys(peopled, store, torrents[j].id);
    lemma_order_of_first_torrent_rows(torrents, i, j);
}

/// Torrents are put in in the order of their first rows.
proof fn lemma_order_of_first_torrent_rows(rows: Seq<DBImportTorrent>, i: int, j: int)
    requires
        0 <= i < j < rows.len(),
        forall|k: int| 0 <= k < j ==> (#[trigger] rows[k]).id != rows[j].id,
    ensures
        match (
            entries::position(torrent::torrents_of_rows(rows), rows[i].id),
            entries::position(torrent::torrents_of_rows(rows), rows[j].id),
        ) {
            (Some(earlier), Some(later)) => earlier < later,
            _ => false,
        },
    decreases rows.len(),
{
    let init = rows.drop_last();
    let before = torrent::torrents_of_rows(init);
    let last = rows.last();
    assert(forall|k: int| 0 <= k < init.len() ==> init[k] == #[trigger] rows[k]);
    entries::position_after_insert(before, last.id, last.torrent(), rows[i].id);
    entries::position_after_insert(before, last.id, last.torrent(), rows[j].id);
    if j < init.len() {
        lemma_order_of_first_torrent_rows(init, i, j);
    } else {
        torrent::loaded_torrents_are_those_of_the_rows(init, rows[i].id);
        torrent::loaded_torrents_are_those_of_the_rows(init, rows[j].id);
        assert(init[i].id == rows[i].id);
        entries::lemma_position(before, rows[i].id);
    }
}

/// A row about a user on a torrent is followed by a last one, itself or
/// another.
proof fn lemma_some_total_row(rows: Seq<DBImportUploadTotal>, r: int)
    requires
        0 <= r < rows.len(),
    ensures
        laws::last_total_row(rows, rows[r].torrent_id, rows[r].user_id) is Some,
    decreases rows.len(),
{
    let init = rows.drop_last();
    if r < init.len() {
        assert(init[r] == rows[r]);
        lemma_some_total_row(init, r);
    }
}

/// Totals are put in in the order of the first rows about their users.
proof fn lemma_order_of_first_total_rows(
    torrents: Seq<(u32, TorrentView)>,
    rows: Seq<DBImportUploadTotal>,
    i: int,
    j: int,
)
    requires
        torrent::torrents_wf(torrents),
        match entries::lookup(torrents, rows[j].torrent_id) {
            Some(found) => found.upload_totals.len() == 0,
            None => false,
        },
        0 <= i < j < rows.len(),
        rows[i].torrent_id == rows[j].torrent_id,
        forall|k: int|
            0 <= k < j && (#[trigger] rows[k]).torrent_id == rows[j].torrent_id ==> rows[k].user_id != rows[j].user_id,
    ensures
        match entries::lookup(torrent::with_total_rows(torrents, rows), rows[j].torrent_id) {
            Some(found) => match (
                entries::position(found.upload_totals, rows[i].user_id),
                entries::position(found.upload_totals, rows[j].user_id),
            ) {
                (Some(earlier), Some(later)) => earlier < later,
                _ => false,
            },
            None => false,
        },
    decreases rows.len(),
{
    let id = rows[j].torrent_id;
    let init = rows.drop_last();
    let before = torrent::with_total_rows(torrents, init);
    let last = rows.last();
    assert(forall|k: int| 0 <= k < init.len() ==> init[k] == #[trigger] rows[k]);
    laws::lemma_with_total_rows(torrents, init, id, rows[i].user_id);
    laws::lemma_with_total_rows(torrents, init, id, rows[j].user_id);
    if j < init.len() {
        lemma_order_of_first_total_rows(torrents, init, i, j);
    } else {
        lemma_some_total_row(init, i);
        lemma_last_total_row_at(init, id, rows[j].user_id, 0);
    }
    if let Some(base) = entries::lookup(torrents, id) {
        entries::lemma_position(base.upload_totals, rows[j].user_id);
    }
    if let Some(found) = entries::lookup(before, id) {
        entries::lemma_position(found.upload_totals, rows[i].user_id);
        entries::lemma_position(found.upload_totals, rows[j].user_id);
        entries::position_after_insert(
            found.upload_totals,
            last.user_id,
            last.actual_uploaded,
            rows[i].user_id,
        );
        entries::position_after_insert(
            found.upload_totals,
            last.user_id,
            last.actual_uploaded,
            rows[j].user_id,
        );
    }
    if let Some(changed) = entries::lookup(before, last.torrent_id) {
        entries::lookup_after_insert(
            before,
            last.torrent_id,
            TorrentView {
                upload_totals: entries::inserted(
                    changed.upload_totals,
                    last.user_id,
                    last.actual_uploaded,
                ),
                ..changed
            },
            id,
        );
    }
}

/// On a loaded torrent, totals stand in the order of the first rows about their
/// users: here the row at `j` is the first about its user on the torrent, and
/// the row at `i` comes before it.
pub proof fn loading_keeps_the_order_of_first_total_rows(
    torrents: Seq<DBImportTorrent>,
    upload_totals: Seq<DBImportUploadTotal>,
    peers: Seq<DBImportPeer>,
    threshold_percent: u64,
    r: int,
    i: int,
    j: int,
)
    requires
        0 <= r < torrents.len(),
        0 <= i < j < upload_totals.len(),
        upload_totals[i].torrent_id == torrents[r].id,
        upload_totals[j].torrent_id == torrents[r].id,
        forall|k: int|
            0 <= k < j && (#[trigger] upload_totals[k]).torrent_id == torrents[r].id ==> upload_totals[k].user_id != upload_totals[j].user_id,
    ensures
        match entries::lookup(
            torrent::loaded(torrents, upload_totals, peers, threshold_percent),
            torrents[r].id,
        ) {
            Some(found) => match (
                entries::position(
                    found.upload_totals,
                    upload_totals[i].user_id,
                ),
                entries::position(
                    found.upload_totals,
                    upload_totals[j].user_id,
                ),
            ) {
                (Some(earlier), Some(later)) => earlier < later,
                _ => false,
            },
            None => false,
        },
{
    let id = torrents[r].id;
    let imported = torrent::torrents_of_rows(torrents);
    let totalled = torrent::with_total_rows(imported, upload_totals);
    let peopled = torrent::with_peer_rows(totalled, peers);
    lemma_loaded(torrents, upload_totals, peers, threshold_percent, r);
    laws::lemma_torrents_of_rows(torrents, id);
    laws::lemma_with_total_rows(imported, upload_totals, id, 0);
    laws::lemma_with_peer_rows(totalled, peers, id, arbitrary());
    laws::lemma_all_refreshed(peopled, threshold_percent, id);
    lemma_order_of_first_total_rows(imported, upload_totals, i, j);
}

/// A row about a client on a torrent is followed by a last one, itself or
/// another.
proof fn lemma_some_peer_row(rows: Seq<DBImportPeer>, r: int)
    requires
        0 <= r < rows.len(),
    ensures
        laws::last_peer_row(rows, rows[r].torrent_id, rows[r].index()) is Some,
    decreases rows.len(),
{
    let init = rows.drop_last();
    if r < init.len() {
        assert(init[r] == rows[r]);
        lemma_some_peer_row(init, r);
    }
}

/// Peers are put in in the order of the first rows about their clients.
proof fn lemma_order_of_first_peer_rows(
    torrents: Seq<(u32, TorrentView)>,
    rows: Seq<DBImportPeer>,
    i: int,
    j: int,
)
    requires
        torrent::torrents_wf(torrents),
        match entries::lookup(torrents, rows[j].torrent_id) {
            Some(found) => found.peers.len() == 0,
            None => false,
        },
        0 <= i < j < rows.len(),
        rows[i].torrent_id == rows[j].torrent_id,
        forall|k: int|
            0 <= k < j && (#[trigger] rows[k]).torrent_id == rows[j].torrent_id ==> rows[k].user_id != rows[j].user_id
                || rows[k].peer_id != rows[j].peer_id,
    ensures
        match entries::lookup(torrent::with_peer_rows(torrents, rows), rows[j].torrent_id) {
            Some(found) => match (
                entries::position(found.peers, rows[i].index()),
                entries::position(found.peers, rows[j].index()),
            ) {
                (Some(earlier), Some(later)) => earlier < later,
                _ => false,
            },
            None => false,
        },
    decreases rows.len(),
{
    let id = rows[j].torrent_id;
    let init = rows.drop_last();
    let before = torrent::with_peer_rows(torrents, init);
    let last = rows.last();
    assert(forall|k: int| 0 <= k < init.len() ==> init[k] == #[trigger] rows[k]);
    laws::lemma_with_peer_rows(torrents, init, id, rows[i].index());
    laws::lemma_with_peer_rows(torrents, init, id, rows[j].index());
    if j < init.len() {
        lemma_order_of_first_peer_rows(torrents, init, i, j);
    } else {
        lemma_some_peer_row(init, i);
        lemma_last_peer_row_at(init, id, rows[j].index(), 0);
    }
    if let Some(base) = entries::lookup(torrents, id) {
        entries::lemma_position(base.peers, rows[j].index());
    }
    if let Some(found) = entries::lookup(before, id) {
        entries::lemma_position(found.peers, rows[i].index());
        entries::lemma_position(found.peers, rows[j].index());
        entries::position_after_insert(
            found.peers,
            last.index(),
            last.peer(),
            rows[i].index(),
        );
        entries::position_after_insert(
            found.peers,
            last.index(),
            last.peer(),
            rows[j].index(),
        );
    }
    if let Some(changed) = entries::lookup(before, last.torrent_id) {
        entries::lookup_after_insert(
            before,
            last.torrent_id,
            TorrentView {
                peers: entries::inserted(
                    changed.peers,
                    last.index(),
                    last.peer(),
                ),
                ..changed
            },
            id,
        );
    }
}

/// On a loaded torrent, peers stand in the order of the first rows about their
/// clients: here the row at `j` is the first about its client on the torrent, and
/// the row at `i` comes before it.
pub proof fn loading_keeps_the_order_of_first_peer_rows(
    torrents: Seq<DBImportTorrent>,
    upload_totals: Seq<DBImportUploadTotal>,
    peers: Seq<DBImportPeer>,
    threshold_percent: u64,
    r: int,
    i: int,
    j: int,
)
    requires
        0 <= r < torrents.len(),
        0 <= i < j < peers.len(),
        peers[i].torrent_id == torrents[r].id,
        peers[j].torrent_id == torrents[r].id,
        forall|k: int|
            0 <= k < j && (#[trigger] peers[k]).torrent_id == torrents[r].id ==> peers[k].user_id != peers[j].user_id
                || peers[k].peer_id != peers[j].peer_id,
    ensures
        match entries::lookup(
            torrent::loaded(torrents, upload_totals, peers, threshold_percent),
            torrents[r].id,
        ) {
            Some(found) => match (
                entries::position(
                    found.peers,
                    Index { user_id: peers[i].user_id, peer_id: peers[i].peer_id },
                ),
                entries::position(
                    found.peers,
                    Index { user_id: peers[j].user_id, peer_id: peers[j].peer_id },
                ),
            ) {
                (Some(earlier), Some(later)) => earlier < later,
                _ => false,
            },
            None => false,
        },
{
    let id = torrents[r].id;
    let imported = torrent::torrents_of_rows(torrents);
    let totalled = torrent::with_total_rows(imported, upload_totals);
    let peopled = torrent::with_peer_rows(totalled, peers);
    lemma_loaded(torrents, upload_totals, peers, threshold_percent, r);
    laws::lemma_torrents_of_rows(torrents, id);
    laws::lemma_with_total_rows(imported, upload_totals, id, 0);
    laws::lemma_with_peer_rows(totalled, peers, id, arbitrary());
    laws::lemma_all_refreshed(peopled, threshold_percent, id);
    lemma_order_of_first_peer_rows(totalled, peers, i, j);
    if let Some(found) = entries::lookup(peopled, id) {
        let after = found.refreshed(threshold_percent);
        entries::lemma_position_same_keys(found.peers, after.peers, peers[i].index());
        entries::lemma_position_same_keys(found.peers, after.peers, peers[j].index());
    }
}

} // verus!
