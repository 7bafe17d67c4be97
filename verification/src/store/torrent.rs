//! The torrents, and how their peers' cap flags follow the upload totals.

use indexmap::IndexMap;
use vstd::prelude::*;

use crate::model::{IpAddr, PeerId, Timestamp, TorrentStatus};
use crate::store::entries;
use crate::store::index_map;
use crate::store::laws;
use crate::store::peer::{Index, Peer, PeerStore};
use crate::store::upload_total;
use crate::store::upload_total::{is_over_upload_cap, UploadTotalStore};

verus! {

/// A torrent as the tracker keeps it.
pub struct Torrent {
    pub id: u32,
    pub status: TorrentStatus,
    pub is_deleted: bool,
    pub peers: PeerStore,
    pub seeders: u32,
    pub leechers: u32,
    pub times_completed: u32,
    pub download_factor: u8,
    pub upload_factor: u8,
    /// Torrent size in bytes.
    pub size: u64,
    /// When enabled, peers of users whose total upload on this torrent
    /// reaches `upload_cap_threshold` percent of the torrent size are
    /// withheld from peer lists.
    pub upload_cap: bool,
    pub upload_totals: UploadTotalStore,
}

/// What a torrent holds, with its stores as the sequences of their entries.
#[verifier::ext_equal]
pub struct TorrentView {
    pub id: u32,
    pub status: TorrentStatus,
    pub is_deleted: bool,
    pub peers: Seq<(Index, Peer)>,
    pub seeders: u32,
    pub leechers: u32,
    pub times_completed: u32,
    pub download_factor: u8,
    pub upload_factor: u8,
    pub size: u64,
    pub upload_cap: bool,
    pub upload_totals: Seq<(u32, u64)>,
}

impl View for Torrent {
    type V = TorrentView;

    open spec fn view(&self) -> TorrentView {
        TorrentView {
            id: self.id,
            status: self.status,
            is_deleted: self.is_deleted,
            peers: self.peers@,
            seeders: self.seeders,
            leechers: self.leechers,
            times_completed: self.times_completed,
            download_factor: self.download_factor,
            upload_factor: self.upload_factor,
            size: self.size,
            upload_cap: self.upload_cap,
            upload_totals: self.upload_totals@,
        }
    }
}

impl TorrentView {
    /// No peer and no user's total occurs twice.
    pub open spec fn wf(self) -> bool {
        &&& entries::keys_distinct(self.peers)
        &&& entries::keys_distinct(self.upload_totals)
    }

    /// A torrent of which nothing is known yet.
    pub open spec fn blank() -> TorrentView {
        TorrentView {
            id: 0,
            status: TorrentStatus(0),
            is_deleted: false,
            peers: Seq::empty(),
            seeders: 0,
            leechers: 0,
            times_completed: 0,
            download_factor: 0,
            upload_factor: 0,
            size: 0,
            upload_cap: false,
            upload_totals: Seq::empty(),
        }
    }

    /// The user's total upload on the torrent is over its cap.
    pub open spec fn caps(self, user_id: u32, threshold_percent: u64) -> bool {
        upload_total::over_upload_cap(
            upload_total::total_of(self.upload_totals, user_id),
            self.size,
            threshold_percent,
        )
    }

    /// The cached flag of every peer says whether its user is over the cap.
    pub open spec fn flags_current(self, threshold_percent: u64) -> bool {
        forall|i: int|
            0 <= i < self.peers.len() ==> (#[trigger] self.peers[i]).1.is_upload_capped
                == self.caps(self.peers[i].0.user_id, threshold_percent)
    }

    /// The torrent with every peer's flag set as the totals have it.
    pub open spec fn refreshed(self, threshold_percent: u64) -> TorrentView {
        TorrentView {
            peers: Seq::new(
                self.peers.len(),
                |i: int|
                    (
                        self.peers[i].0,
                        self.peers[i].1.with_upload_capped(
                            self.caps(self.peers[i].0.user_id, threshold_percent),
                        ),
                    ),
            ),
            ..self
        }
    }

    /// The user's total once they have uploaded `uploaded_delta` bytes more.
    pub open spec fn total_after(self, user_id: u32, uploaded_delta: u64) -> u64 {
        let total = upload_total::total_of(self.upload_totals, user_id) + uploaded_delta;
        if total <= u64::MAX {
            total as u64
        } else {
            u64::MAX
        }
    }

    /// The torrent with the flag of every peer of the user set to `capped`.
    pub open spec fn with_user_capped(self, user_id: u32, capped: bool) -> TorrentView {
        TorrentView {
            peers: Seq::new(
                self.peers.len(),
                |i: int|
                    (
                        self.peers[i].0,
                        if self.peers[i].0.user_id == user_id {
                            self.peers[i].1.with_upload_capped(capped)
                        } else {
                            self.peers[i].1
                        },
                    ),
            ),
            ..self
        }
    }

    /// The torrent with `uploaded_delta` added to the user's total. An upload
    /// of nothing leaves no trace.
    pub open spec fn with_upload(self, user_id: u32, uploaded_delta: u64) -> TorrentView {
        if uploaded_delta > 0 {
            TorrentView {
                upload_totals: entries::inserted(
                    self.upload_totals,
                    user_id,
                    self.total_after(user_id, uploaded_delta),
                ),
                ..self
            }
        } else {
            self
        }
    }

    /// Whether the user is over the cap once they have uploaded
    /// `uploaded_delta` bytes more.
    pub open spec fn caps_after(
        self,
        user_id: u32,
        uploaded_delta: u64,
        threshold_percent: u64,
    ) -> bool {
        upload_total::over_upload_cap(
            self.total_after(user_id, uploaded_delta),
            self.size,
            threshold_percent,
        )
    }

    /// The torrent once an upload of the client was recorded: the user's total
    /// has grown, and the flag of every peer of the user, whichever client
    /// announced, says whether the user is over the cap. Nothing happens while
    /// upload cap is disabled.
    pub open spec fn recorded(
        self,
        client: Index,
        uploaded_delta: u64,
        threshold_percent: u64,
    ) -> TorrentView {
        if !self.upload_cap {
            self
        } else {
            self.with_upload(client.user_id, uploaded_delta).with_user_capped(
                client.user_id,
                self.caps_after(client.user_id, uploaded_delta, threshold_percent),
            )
        }
    }
}

impl Torrent {
    /// Recomputes the cached `is_upload_capped` flag on every peer. Linear in
    /// the swarm size, so only call it when loading or updating a torrent,
    /// never per announce.
    pub fn refresh_upload_caps(&mut self, threshold_percent: u64)
        ensures
            final(self)@ == old(self)@.refreshed(threshold_percent),
            forall|i: int|
                0 <= i < final(self).peers@.len() ==> ((
                #[trigger] final(self).peers@[i]).1.is_upload_capped <==> threshold_percent != 0
                    && old(self).size != 0 && (match entries::lookup(
                    old(self).upload_totals@,
                    final(self).peers@[i].0.user_id,
                ) {
                    Some(total) => total as int,
                    None => 0,
                }) * 100 >= old(self).size * threshold_percent),
            final(self).upload_totals@ == old(self).upload_totals@,
            final(self).id == old(self).id,
            final(self).status == old(self).status,
            final(self).is_deleted == old(self).is_deleted,
            final(self).seeders == old(self).seeders,
            final(self).leechers == old(self).leechers,
            final(self).times_completed == old(self).times_completed,
            final(self).download_factor == old(self).download_factor,
            final(self).upload_factor == old(self).upload_factor,
            final(self).size == old(self).size,
            final(self).upload_cap == old(self).upload_cap,
            old(self)@.wf() ==> final(self)@.wf(),
    {
        let size: u64 = self.size;
        let count: usize = self.peers.len();
        let mut place: usize = 0;
        let ghost before = self@;
        while place < count
            invariant
                place <= count,
                count == before.peers.len(),
                size == before.size,
                self@ == (TorrentView { peers: self.peers@, ..before }),
                self.peers@.len() == count,
                forall|i: int|
                    place <= i < count ==> #[trigger] self.peers@[i] == before.peers[i],
                forall|i: int|
                    0 <= i < place ==> #[trigger] self.peers@[i] == before.refreshed(
                        threshold_percent,
                    ).peers[i],
            decreases count - place,
        {
            if let Some((index, _)) = self.peers.get_index(place) {
                let uploaded: u64 = self.upload_totals.uploaded_by(index.user_id);
                self.peers.set_upload_capped(
                    place,
                    is_over_upload_cap(uploaded, size, threshold_percent),
                );
            }
            place = place + 1;
        }
        proof {
            assert(self@.peers =~= before.refreshed(threshold_percent).peers);
            if before.wf() {
                entries::lemma_keys_distinct_same_keys(before.peers, self@.peers);
            }
        }
    }

    /// Adds `uploaded_delta` to the user's total upload on this torrent and
    /// refreshes the cached cap flag of their peers. Returns whether the
    /// user is capped afterwards, or false if upload cap is disabled.
    ///
    /// All the user's clients are looked at, not only the announcing one: any
    /// of them may carry a stale flag after a threshold change.
    pub fn record_upload(
        &mut self,
        user_id: u32,
        peer_id: PeerId,
        uploaded_delta: u64,
        threshold_percent: u64,
    ) -> (capped: bool)
        ensures
            final(self)@ == old(self)@.recorded(
                Index { user_id, peer_id },
                uploaded_delta,
                threshold_percent,
            ),
            capped == (old(self)@.upload_cap && old(self)@.caps_after(
                user_id,
                uploaded_delta,
                threshold_percent,
            )),
            capped <==> old(self).upload_cap && threshold_percent != 0 && old(self).size != 0 && {
                let total = uploaded_delta + match entries::lookup(
                    old(self).upload_totals@,
                    user_id,
                ) {
                    Some(before) => before as int,
                    None => 0,
                };
                let held = if total < u64::MAX {
                    total
                } else {
                    u64::MAX as int
                };
                held * 100 >= old(self).size * threshold_percent
            },
            final(self).id == old(self).id,
            final(self).status == old(self).status,
            final(self).is_deleted == old(self).is_deleted,
            final(self).seeders == old(self).seeders,
            final(self).leechers == old(self).leechers,
            final(self).times_completed == old(self).times_completed,
            final(self).download_factor == old(self).download_factor,
            final(self).upload_factor == old(self).upload_factor,
            final(self).size == old(self).size,
            final(self).upload_cap == old(self).upload_cap,
            old(self)@.upload_cap ==> forall|i: int|
                0 <= i < final(self)@.peers.len() && (#[trigger] final(self)@.peers[i]).0.user_id
                    == user_id ==> final(self)@.peers[i].1.is_upload_capped == capped,
            old(self)@.upload_cap ==> upload_total::total_of(final(self)@.upload_totals, user_id)
                == old(self)@.total_after(user_id, uploaded_delta),
            forall|other: u32|
                other != user_id ==> #[trigger] entries::lookup(
                    final(self)@.upload_totals,
                    other,
                ) == entries::lookup(old(self)@.upload_totals, other),
            old(self)@.wf() ==> final(self)@.wf(),
    {
        let client = Index { user_id, peer_id };
        proof {
            if self.upload_cap {
                let after = self@.recorded(client, uploaded_delta, threshold_percent);
                assert forall|other: u32| other != user_id implies #[trigger] entries::lookup(
                    after.upload_totals,
                    other,
                ) == entries::lookup(self@.upload_totals, other) by {
                    laws::recording_adds_to_the_total(
                        self@,
                        client,
                        uploaded_delta,
                        threshold_percent,
                        other,
                    );
                }
                laws::recording_adds_to_the_total(
                    self@,
                    client,
                    uploaded_delta,
                    threshold_percent,
                    user_id,
                );
            }
            if self@.wf() {
                laws::recording_and_refreshing_keep_wf(
                    self@,
                    client,
                    uploaded_delta,
                    threshold_percent,
                );
            }
        }
        if !self.upload_cap {
            return false;
        }
        let previous_total: u64 = self.upload_totals.uploaded_by(client.user_id);
        let total: u64 = previous_total.saturating_add(uploaded_delta);

        if uploaded_delta > 0 {
            self.upload_totals.insert(client.user_id, total);
        }
        let is_capped = is_over_upload_cap(total, self.size, threshold_percent);
        self.set_user_capped(client.user_id, is_capped);
        is_capped
    }

    /// Sets the cached cap flag on every peer of the user. Only flags that
    /// differ are written.
    fn set_user_capped(&mut self, user_id: u32, capped: bool)
        ensures
            final(self)@ == old(self)@.with_user_capped(user_id, capped),
    {
        let count: usize = self.peers.len();
        let mut place: usize = 0;
        let ghost before = self@;
        while place < count
            invariant
                place <= count,
                count == before.peers.len(),
                self@ == (TorrentView { peers: self.peers@, ..before }),
                self.peers@.len() == count,
                forall|i: int|
                    place <= i < count ==> #[trigger] self.peers@[i] == before.peers[i],
                forall|i: int|
                    0 <= i < place ==> #[trigger] self.peers@[i] == before.with_user_capped(
                        user_id,
                        capped,
                    ).peers[i],
            decreases count - place,
        {
            if let Some((index, peer)) = self.peers.get_index(place) {
                if index.user_id == user_id && peer.is_upload_capped != capped {
                    self.peers.set_upload_capped(place, capped);
                }
            }
            place = place + 1;
        }
        assert(self@.peers =~= before.with_user_capped(user_id, capped).peers);
    }
}

impl Default for Torrent {
    fn default() -> (torrent: Torrent)
        ensures
            torrent@ == TorrentView::blank(),
            torrent.id == 0,
            torrent.status == TorrentStatus(0),
            !torrent.is_deleted,
            torrent.peers@.len() == 0,
            torrent.seeders == 0,
            torrent.leechers == 0,
            torrent.times_completed == 0,
            torrent.download_factor == 0,
            torrent.upload_factor == 0,
            torrent.size == 0,
            !torrent.upload_cap,
            torrent.upload_totals@.len() == 0,
    {
        Torrent {
            id: 0,
            status: TorrentStatus(0),
            is_deleted: false,
            peers: PeerStore::new(),
            seeders: 0,
            leechers: 0,
            times_completed: 0,
            download_factor: 0,
            upload_factor: 0,
            size: 0,
            upload_cap: false,
            upload_totals: UploadTotalStore::new(),
        }
    }
}

impl Clone for Torrent {
    fn clone(&self) -> (copy: Torrent)
        ensures
            copy@ == self@,
            copy.id == self.id,
            copy.status == self.status,
            copy.is_deleted == self.is_deleted,
            copy.seeders == self.seeders,
            copy.leechers == self.leechers,
            copy.times_completed == self.times_completed,
            copy.download_factor == self.download_factor,
            copy.upload_factor == self.upload_factor,
            copy.size == self.size,
            copy.upload_cap == self.upload_cap,
            copy.peers@ == self.peers@,
            copy.upload_totals@ == self.upload_totals@,
    {
        Torrent {
            id: self.id,
            status: self.status,
            is_deleted: self.is_deleted,
            peers: self.peers.clone(),
            seeders: self.seeders,
            leechers: self.leechers,
            times_completed: self.times_completed,
            download_factor: self.download_factor,
            upload_factor: self.upload_factor,
            size: self.size,
            upload_cap: self.upload_cap,
            upload_totals: self.upload_totals.clone(),
        }
    }
}

/// A torrent as the database has it.
#[derive(Clone, Copy, Debug, Default)]
pub struct DBImportTorrent {
    pub id: u32,
    pub status: TorrentStatus,
    pub seeders: u32,
    pub leechers: u32,
    pub times_completed: u32,
    pub download_factor: u8,
    pub upload_factor: u8,
    pub is_deleted: bool,
    pub size: u64,
    pub upload_cap: bool,
}

/// A user's total actual upload on a torrent with upload cap, as the database
/// has it.
#[derive(Clone, Copy, Debug)]
pub struct DBImportUploadTotal {
    pub user_id: u32,
    pub torrent_id: u32,
    pub actual_uploaded: u64,
}

/// A peer as the database has it.
#[derive(Clone, Copy, Debug)]
pub struct DBImportPeer {
    /// Missing where the stored address could not be decoded.
    pub ip_address: Option<IpAddr>,
    pub user_id: u32,
    pub torrent_id: u32,
    pub port: u16,
    pub is_seeder: bool,
    pub is_active: bool,
    pub is_visible: bool,
    pub is_connectable: bool,
    /// Missing where the column is null.
    pub updated_at: Option<Timestamp>,
    pub uploaded: u64,
    pub downloaded: u64,
    pub peer_id: PeerId,
}

impl DBImportTorrent {
    /// The torrent of the row, with nobody in its swarm yet.
    pub open spec fn torrent(self) -> TorrentView {
        TorrentView {
            id: self.id,
            status: self.status,
            is_deleted: self.is_deleted,
            peers: Seq::empty(),
            seeders: self.seeders,
            leechers: self.leechers,
            times_completed: self.times_completed,
            download_factor: self.download_factor,
            upload_factor: self.upload_factor,
            size: self.size,
            upload_cap: self.upload_cap,
            upload_totals: Seq::empty(),
        }
    }
}

impl DBImportPeer {
    /// The row has all that a peer needs.
    pub open spec fn complete(self) -> bool {
        self.ip_address is Some && self.updated_at is Some
    }

    /// Whose client the row is about.
    pub open spec fn index(self) -> Index {
        Index { user_id: self.user_id, peer_id: self.peer_id }
    }

    /// The peer of a complete row.
    pub open spec fn peer(self) -> Peer {
        Peer {
            ip_address: self.ip_address->0,
            port: self.port,
            is_seeder: self.is_seeder,
            is_active: self.is_active,
            is_visible: self.is_visible,
            is_connectable: self.is_connectable,
            has_sent_completed: false,
            updated_at: self.updated_at->0,
            uploaded: self.uploaded,
            downloaded: self.downloaded,
            is_upload_capped: false,
        }
    }
}

/// Every torrent of the store, by its id.
pub struct TorrentStore {
    inner: IndexMap<u32, Torrent>,
}

/// The entries of the inner map, with what each torrent holds.
spec fn viewed(inner: Seq<(u32, Torrent)>) -> Seq<(u32, TorrentView)> {
    Seq::new(inner.len(), |i: int| (inner[i].0, inner[i].1@))
}

/// Looking a torrent up, putting one in and taking one out mean the same
/// before and after taking the views.
proof fn lemma_viewed(inner: Seq<(u32, Torrent)>, id: u32, torrent: Torrent)
    ensures
        entries::position(viewed(inner), id) == entries::position(inner, id),
        match entries::lookup(inner, id) {
            Some(found) => entries::lookup(viewed(inner), id) == Some(found@),
            None => entries::lookup(viewed(inner), id) is None,
        },
        viewed(entries::inserted(inner, id, torrent)) == entries::inserted(
            viewed(inner),
            id,
            torrent@,
        ),
        viewed(entries::swap_removed(inner, id)) == entries::swap_removed(viewed(inner), id),
{
    assert(entries::same_keys(viewed(inner), inner));
    entries::lemma_position_same_keys(viewed(inner), inner, id);
    entries::lemma_position(inner, id);
    assert(viewed(entries::inserted(inner, id, torrent)) =~= entries::inserted(
        viewed(inner),
        id,
        torrent@,
    ));
    assert(viewed(entries::swap_removed(inner, id)) =~= entries::swap_removed(viewed(inner), id));
}

impl View for TorrentStore {
    type V = Seq<(u32, TorrentView)>;

    /// The torrents in the order of the store.
    closed spec fn view(&self) -> Seq<(u32, TorrentView)> {
        viewed(index_map::torrent_entries(self.inner))
    }
}

/// No torrent occurs twice, and neither does a peer or a user's total in any
/// of them.
pub open spec fn torrents_wf(torrents: Seq<(u32, TorrentView)>) -> bool {
    &&& entries::keys_distinct(torrents)
    &&& forall|i: int| 0 <= i < torrents.len() ==> (#[trigger] torrents[i]).1.wf()
}

/// The store that the rows of the torrents leave, taken one after the other.
pub open spec fn torrents_of_rows(rows: Seq<DBImportTorrent>) -> Seq<(u32, TorrentView)>
    decreases rows.len(),
{
    if rows.len() == 0 {
        Seq::empty()
    } else {
        entries::inserted(
            torrents_of_rows(rows.drop_last()),
            rows.last().id,
            rows.last().torrent(),
        )
    }
}

/// The store with the row's total on its torrent, if the torrent is there.
pub open spec fn with_total_row(
    torrents: Seq<(u32, TorrentView)>,
    row: DBImportUploadTotal,
) -> Seq<(u32, TorrentView)> {
    match entries::lookup(torrents, row.torrent_id) {
        Some(torrent) => entries::inserted(
            torrents,
            row.torrent_id,
            TorrentView {
                upload_totals: entries::inserted(
                    torrent.upload_totals,
                    row.user_id,
                    row.actual_uploaded,
                ),
                ..torrent
            },
        ),
        None => torrents,
    }
}

/// The store with the totals of the rows, taken one after the other.
pub open spec fn with_total_rows(
    torrents: Seq<(u32, TorrentView)>,
    rows: Seq<DBImportUploadTotal>,
) -> Seq<(u32, TorrentView)>
    decreases rows.len(),
{
    if rows.len() == 0 {
        torrents
    } else {
        with_total_row(with_total_rows(torrents, rows.drop_last()), rows.last())
    }
}

/// The store with the row's peer in its torrent's swarm, if the torrent is
/// there.
pub open spec fn with_peer_row(
    torrents: Seq<(u32, TorrentView)>,
    row: DBImportPeer,
) -> Seq<(u32, TorrentView)> {
    match entries::lookup(torrents, row.torrent_id) {
        Some(torrent) => entries::inserted(
            torrents,
            row.torrent_id,
            TorrentView {
                peers: entries::inserted(torrent.peers, row.index(), row.peer()),
                ..torrent
            },
        ),
        None => torrents,
    }
}

/// The store with the peers of the rows, taken one after the other.
pub open spec fn with_peer_rows(
    torrents: Seq<(u32, TorrentView)>,
    rows: Seq<DBImportPeer>,
) -> Seq<(u32, TorrentView)>
    decreases rows.len(),
{
    if rows.len() == 0 {
        torrents
    } else {
        with_peer_row(with_peer_rows(torrents, rows.drop_last()), rows.last())
    }
}

/// The store with the cap flags of every torrent that has upload cap set as
/// its totals have it.
pub open spec fn all_refreshed(
    torrents: Seq<(u32, TorrentView)>,
    threshold_percent: u64,
) -> Seq<(u32, TorrentView)> {
    Seq::new(
        torrents.len(),
        |i: int|
            (
                torrents[i].0,
                if torrents[i].1.upload_cap {
                    torrents[i].1.refreshed(threshold_percent)
                } else {
                    torrents[i].1
                },
            ),
    )
}

/// The store that the rows of the database leave: first the torrents, then the
/// totals, then the peers, and then the cap flags.
pub open spec fn loaded(
    torrents: Seq<DBImportTorrent>,
    upload_totals: Seq<DBImportUploadTotal>,
    peers: Seq<DBImportPeer>,
    threshold_percent: u64,
) -> Seq<(u32, TorrentView)> {
    all_refreshed(
        with_peer_rows(with_total_rows(torrents_of_rows(torrents), upload_totals), peers),
        threshold_percent,
    )
}

/// One of the rows is about the torrent.
pub open spec fn has_row(rows: Seq<DBImportTorrent>, torrent_id: u32) -> bool {
    exists|i: int| 0 <= i < rows.len() && (#[trigger] rows[i]).id == torrent_id
}

/// A torrent is in the store exactly if one of the rows is about it.
pub proof fn loaded_torrents_are_those_of_the_rows(rows: Seq<DBImportTorrent>, torrent_id: u32)
    ensures
        entries::lookup(torrents_of_rows(rows), torrent_id) is Some <==> has_row(rows, torrent_id),
    decreases rows.len(),
{
    if rows.len() > 0 {
        let init = rows.drop_last();
        loaded_torrents_are_those_of_the_rows(init, torrent_id);
        entries::lookup_after_insert(
            torrents_of_rows(init),
            rows.last().id,
            rows.last().torrent(),
            torrent_id,
        );
        if has_row(init, torrent_id) {
            let i = choose|i: int| 0 <= i < init.len() && (#[trigger] init[i]).id == torrent_id;
            assert(rows[i].id == torrent_id);
        }
        if has_row(rows, torrent_id) && rows.last().id != torrent_id {
            let i = choose|i: int| 0 <= i < rows.len() && (#[trigger] rows[i]).id == torrent_id;
            assert(init[i].id == torrent_id);
        }
    }
}

/// Putting in totals and peers neither adds nor removes a torrent.
pub(crate) proof fn lemma_rows_keep_torrents(
    torrents: Seq<(u32, TorrentView)>,
    totals: Seq<DBImportUploadTotal>,
    peers: Seq<DBImportPeer>,
)
    ensures
        entries::same_keys(with_total_rows(torrents, totals), torrents),
        entries::same_keys(with_peer_rows(torrents, peers), torrents),
    decreases totals.len() + peers.len(),
{
    if totals.len() > 0 {
        let init = with_total_rows(torrents, totals.drop_last());
        lemma_rows_keep_torrents(torrents, totals.drop_last(), Seq::empty());
        entries::lemma_position(init, totals.last().torrent_id);
    }
    if peers.len() > 0 {
        let init = with_peer_rows(torrents, peers.drop_last());
        lemma_rows_keep_torrents(torrents, Seq::empty(), peers.drop_last());
        entries::lemma_position(init, peers.last().torrent_id);
    }
}

impl TorrentStore {
    /// No torrent occurs twice, and neither does a peer or a user's total in
    /// any of them.
    pub open spec fn wf(&self) -> bool {
        torrents_wf(self@)
    }

    pub fn new() -> (store: TorrentStore)
        ensures
            store@ == Seq::<(u32, TorrentView)>::empty(),
            store.wf(),
    {
        TorrentStore { inner: index_map::new_torrents() }
    }

    /// Takes in the torrents, then each user's total upload on them, then
    /// their peers, as the database has them, and sets the cap flags of the
    /// peers on torrents with upload cap.
    ///
    /// Totals and peers of torrents that are not among the rows are passed
    /// over. A peer of a torrent that is has to have an address and a time.
    pub fn from_db(
        torrents: &[DBImportTorrent],
        upload_totals: &[DBImportUploadTotal],
        peers: &[DBImportPeer],
        upload_cap_threshold: u64,
    ) -> (store: TorrentStore)
        requires
            forall|i: int|
                0 <= i < peers@.len() && has_row(torrents@, (#[trigger] peers@[i]).torrent_id)
                    ==> peers@[i].complete(),
        ensures
            store@ == loaded(torrents@, upload_totals@, peers@, upload_cap_threshold),
            store.wf(),
    {
        let mut store = TorrentStore::new();
        let mut i: usize = 0;
        assert(torrents@.take(0) =~= Seq::empty());
        while i < torrents.len()
            invariant
                i <= torrents@.len(),
                store@ == torrents_of_rows(torrents@.take(i as int)),
            decreases torrents@.len() - i,
        {
            assert(torrents@.take(i + 1).drop_last() =~= torrents@.take(i as int));
            store.import_torrent(&torrents[i]);
            i = i + 1;
        }
        assert(torrents@.take(i as int) =~= torrents@);

        let ghost imported = store@;
        let mut i: usize = 0;
        assert(upload_totals@.take(0) =~= Seq::empty());
        while i < upload_totals.len()
            invariant
                i <= upload_totals@.len(),
                store@ == with_total_rows(imported, upload_totals@.take(i as int)),
            decreases upload_totals@.len() - i,
        {
            assert(upload_totals@.take(i + 1).drop_last() =~= upload_totals@.take(i as int));
            store.import_upload_total(&upload_totals[i]);
            i = i + 1;
        }
        assert(upload_totals@.take(i as int) =~= upload_totals@);

        let ghost totalled = store@;
        let mut i: usize = 0;
        assert(peers@.take(0) =~= Seq::empty());
        while i < peers.len()
            invariant
                i <= peers@.len(),
                imported == torrents_of_rows(torrents@),
                totalled == with_total_rows(imported, upload_totals@),
                store@ == with_peer_rows(totalled, peers@.take(i as int)),
                forall|i: int|
                    0 <= i < peers@.len() && has_row(torrents@, (#[trigger] peers@[i]).torrent_id)
                        ==> peers@[i].complete(),
            decreases peers@.len() - i,
        {
            assert(peers@.take(i + 1).drop_last() =~= peers@.take(i as int));
            proof {
                let id = peers@[i as int].torrent_id;
                loaded_torrents_are_those_of_the_rows(torrents@, id);
                lemma_rows_keep_torrents(imported, upload_totals@, Seq::empty());
                lemma_rows_keep_torrents(totalled, Seq::empty(), peers@.take(i as int));
                entries::lemma_position_same_keys(totalled, imported, id);
                entries::lemma_position_same_keys(store@, totalled, id);
            }
            store.import_peer(&peers[i]);
            i = i + 1;
        }
        assert(peers@.take(i as int) =~= peers@);

        store.refresh_upload_caps(upload_cap_threshold);
        proof {
            laws::loading_gives_wf(torrents@, upload_totals@, peers@, upload_cap_threshold);
        }
        store
    }

    /// Puts in the torrent of the row, with nobody in its swarm.
    fn import_torrent(&mut self, row: &DBImportTorrent)
        ensures
            final(self)@ == entries::inserted(old(self)@, row.id, row.torrent()),
    {
        self.insert(
            row.id,
            Torrent {
                id: row.id,
                status: row.status,
                seeders: row.seeders,
                leechers: row.leechers,
                times_completed: row.times_completed,
                download_factor: row.download_factor,
                upload_factor: row.upload_factor,
                is_deleted: row.is_deleted,
                size: row.size,
                upload_cap: row.upload_cap,
                upload_totals: UploadTotalStore::new(),
                peers: PeerStore::new(),
            },
        );
    }

    /// Puts in the row's total, if its torrent is there.
    fn import_upload_total(&mut self, row: &DBImportUploadTotal)
        ensures
            final(self)@ == with_total_row(old(self)@, *row),
    {
        if let Some(torrent) = self.get_mut(&row.torrent_id) {
            torrent.upload_totals.insert(row.user_id, row.actual_uploaded);
        }
    }

    /// Puts in the row's peer, if its torrent is there.
    fn import_peer(&mut self, row: &DBImportPeer)
        requires
            entries::lookup(old(self)@, row.torrent_id) is Some ==> row.complete(),
        ensures
            final(self)@ == with_peer_row(old(self)@, *row),
    {
        if let Some(torrent) = self.get_mut(&row.torrent_id) {
            torrent.peers.insert(
                Index { user_id: row.user_id, peer_id: row.peer_id },
                Peer {
                    ip_address: row.ip_address.unwrap(),
                    port: row.port,
                    is_seeder: row.is_seeder,
                    is_active: row.is_active,
                    is_visible: row.is_visible,
                    is_connectable: row.is_connectable,
                    has_sent_completed: false,
                    updated_at: row.updated_at.unwrap(),
                    uploaded: row.uploaded,
                    downloaded: row.downloaded,
                    is_upload_capped: false,
                },
            );
        }
    }

    /// Recomputes the cached cap flags on every torrent with upload cap.
    fn refresh_upload_caps(&mut self, threshold_percent: u64)
        ensures
            final(self)@ == all_refreshed(old(self)@, threshold_percent),
    {
        let count: usize = self.len();
        let mut place: usize = 0;
        let ghost before = self@;
        while place < count
            invariant
                place <= count,
                count == before.len(),
                self@.len() == count,
                forall|i: int| place <= i < count ==> #[trigger] self@[i] == before[i],
                forall|i: int|
                    0 <= i < place ==> #[trigger] self@[i] == all_refreshed(
                        before,
                        threshold_percent,
                    )[i],
            decreases count - place,
        {
            let ghost now = self@;
            assert(now[place as int] == before[place as int]);
            if let Some(torrent) = index_map::get_torrent_at_mut(&mut self.inner, place) {
                if torrent.upload_cap {
                    torrent.refresh_upload_caps(threshold_percent);
                }
            }
            assert(forall|i: int|
                0 <= i < count && i != place ==> #[trigger] self@[i] == now[i]);
            assert(self@[place as int] == all_refreshed(before, threshold_percent)[place as int]);
            place = place + 1;
        }
        assert(self@ =~= all_refreshed(before, threshold_percent));
    }

    /// Puts the torrent under the id and gives back the one that it replaces.
    pub fn insert(&mut self, id: u32, torrent: Torrent) -> (previous: Option<Torrent>)
        ensures
            final(self)@ == entries::inserted(old(self)@, id, torrent@),
            match previous {
                Some(previous) => entries::lookup(old(self)@, id) == Some(previous@),
                None => entries::lookup(old(self)@, id) is None,
            },
            forall|other: u32| #[trigger]
                entries::lookup(final(self)@, other) == if other == id {
                    Some(torrent@)
                } else {
                    entries::lookup(old(self)@, other)
                },
            old(self).wf() && torrent@.wf() ==> final(self).wf(),
    {
        proof {
            assert forall|other: u32| #[trigger]
                entries::lookup(entries::inserted(self@, id, torrent@), other) == if other == id {
                    Some(torrent@)
                } else {
                    entries::lookup(self@, other)
                } by {
                entries::lookup_after_insert(self@, id, torrent@, other);
            }
            if self.wf() {
                laws::storing_and_removing_keep_wf(self@, id, torrent@);
            }
            lemma_viewed(index_map::torrent_entries(self.inner), id, torrent);
        }
        index_map::insert_torrent(&mut self.inner, id, torrent)
    }

    /// The torrent under the id.
    pub fn get(&self, id: &u32) -> (torrent: Option<&Torrent>)
        ensures
            match torrent {
                Some(torrent) => entries::lookup(self@, *id) == Some(torrent@),
                None => entries::lookup(self@, *id) is None,
            },
    {
        proof {
            lemma_viewed(index_map::torrent_entries(self.inner), *id, arbitrary());
        }
        index_map::get_torrent(&self.inner, id)
    }

    /// The torrent under the id, to be changed where it stands.
    pub fn get_mut(&mut self, id: &u32) -> (torrent: Option<&mut Torrent>)
        ensures
            match torrent {
                Some(torrent) => {
                    &&& entries::lookup(old(self)@, *id) == Some(torrent@)
                    &&& final(self)@ == entries::inserted(old(self)@, *id, final(torrent)@)
                    &&& old(self).wf() ==> torrent@.wf()
                    &&& old(self).wf() && final(torrent)@.wf() ==> final(self).wf()
                },
                None => {
                    &&& entries::lookup(old(self)@, *id) is None
                    &&& final(self)@ == old(self)@
                },
            },
    {
        proof {
            assert forall|torrent: Torrent|
                viewed(
                    #[trigger] entries::inserted(
                        index_map::torrent_entries(self.inner),
                        *id,
                        torrent,
                    ),
                ) == entries::inserted(self@, *id, torrent@) by {
                lemma_viewed(index_map::torrent_entries(self.inner), *id, torrent);
            }
            if self.wf() {
                assert forall|torrent: TorrentView| torrent.wf() implies torrents_wf(
                    #[trigger] entries::inserted(self@, *id, torrent),
                ) by {
                    laws::storing_and_removing_keep_wf(self@, *id, torrent);
                }
                laws::storing_and_removing_keep_wf(self@, *id, TorrentView::blank());
            }
            lemma_viewed(index_map::torrent_entries(self.inner), *id, arbitrary());
        }
        index_map::get_torrent_mut(&mut self.inner, id)
    }

    /// Takes the torrent under the id out. The last torrent moves into its
    /// place.
    pub fn swap_remove(&mut self, id: &u32) -> (removed: Option<Torrent>)
        ensures
            final(self)@ == entries::swap_removed(old(self)@, *id),
            match removed {
                Some(removed) => entries::lookup(old(self)@, *id) == Some(removed@),
                None => entries::lookup(old(self)@, *id) is None,
            },
            old(self).wf() ==> final(self).wf(),
    {
        proof {
            if self.wf() {
                laws::storing_and_removing_keep_wf(self@, *id, TorrentView::blank());
            }
            lemma_viewed(index_map::torrent_entries(self.inner), *id, arbitrary());
        }
        index_map::swap_remove_torrent(&mut self.inner, id)
    }

    /// The torrent at that place in the order, and its id.
    pub fn get_index(&self, place: usize) -> (entry: Option<(u32, &Torrent)>)
        ensures
            match entry {
                Some((id, torrent)) => {
                    &&& place < self@.len()
                    &&& self@[place as int] == (id, torrent@)
                },
                None => place >= self@.len(),
            },
    {
        match index_map::get_torrent_at(&self.inner, place) {
            Some((id, torrent)) => Some((*id, torrent)),
            None => None,
        }
    }

    /// The number of torrents.
    pub fn len(&self) -> (count: usize)
        ensures
            count == self@.len(),
    {
        index_map::count_torrents(&self.inner)
    }
}

} // verus!
