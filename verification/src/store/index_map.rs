//! What the library takes from the `indexmap` crate.
//!
//! Each map is known to the proofs by the sequence of its entries, in the
//! map's order. The contracts hold as long as there is memory for the entries.

use indexmap::IndexMap;
use vstd::prelude::*;

use crate::store::entries;
use crate::store::peer::Peer;
use crate::store::torrent::Torrent;

verus! {

/// `indexmap::IndexMap`, a hash map that keeps its entries in the order in
/// which their keys came. Nothing inside it is visible to the proofs.
#[verifier::external_type_specification]
#[verifier::external_body]
#[verifier::reject_recursive_types(K)]
#[verifier::reject_recursive_types(V)]
#[verifier::reject_recursive_types(S)]
pub struct ExIndexMap<K, V, S>(IndexMap<K, V, S>);

/// The entries of a map from user ids to upload totals, in the map's order.
pub uninterp spec fn total_entries(map: IndexMap<u32, u64>) -> Seq<(u32, u64)>;

/// `IndexMap::new`: a map without entries.
#[verifier::external_body]
pub(crate) fn new_totals() -> (map: IndexMap<u32, u64>)
    ensures
        total_entries(map) == Seq::<(u32, u64)>::empty(),
{
    IndexMap::new()
}

/// `IndexMap::insert`: a key that is there keeps its place and gets the value,
/// a new key goes last. The value that the key had is given back.
#[verifier::external_body]
pub(crate) fn insert_total(map: &mut IndexMap<u32, u64>, user_id: u32, total: u64) -> (previous:
    Option<u64>)
    ensures
        total_entries(*final(map)) == entries::inserted(total_entries(*old(map)), user_id, total),
        previous == entries::lookup(total_entries(*old(map)), user_id),
{
    map.insert(user_id, total)
}

/// `IndexMap::get`: the value of the key, if the key is there.
#[verifier::external_body]
pub(crate) fn get_total<'a>(map: &'a IndexMap<u32, u64>, user_id: &u32) -> (total: Option<&'a u64>)
    ensures
        match total {
            Some(total) => entries::lookup(total_entries(*map), *user_id) == Some(*total),
            None => entries::lookup(total_entries(*map), *user_id) is None,
        },
{
    map.get(user_id)
}

/// `IndexMap::is_empty`: whether the map has no entries.
#[verifier::external_body]
pub(crate) fn has_no_totals(map: &IndexMap<u32, u64>) -> (empty: bool)
    ensures
        empty == (total_entries(*map).len() == 0),
{
    map.is_empty()
}

/// `IndexMap::clone`: a map with the same entries in the same order.
#[verifier::external_body]
pub(crate) fn clone_totals(map: &IndexMap<u32, u64>) -> (copy: IndexMap<u32, u64>)
    ensures
        total_entries(copy) == total_entries(*map),
{
    map.clone()
}

/// The entries of a map from a user id and the octets of a peer id to a peer,
/// in the map's order.
pub uninterp spec fn peer_entries(map: IndexMap<(u32, [u8; 20]), Peer>) -> Seq<
    ((u32, [u8; 20]), Peer),
>;

/// `IndexMap::new`: a map without entries.
#[verifier::external_body]
pub(crate) fn new_peers() -> (map: IndexMap<(u32, [u8; 20]), Peer>)
    ensures
        peer_entries(map) == Seq::<((u32, [u8; 20]), Peer)>::empty(),
{
    IndexMap::new()
}

/// `IndexMap::insert`: a key that is there keeps its place and gets the value,
/// a new key goes last. The value that the key had is given back.
#[verifier::external_body]
pub(crate) fn insert_peer(
    map: &mut IndexMap<(u32, [u8; 20]), Peer>,
    key: (u32, [u8; 20]),
    peer: Peer,
) -> (previous: Option<Peer>)
    ensures
        peer_entries(*final(map)) == entries::inserted(peer_entries(*old(map)), key, peer),
        previous == entries::lookup(peer_entries(*old(map)), key),
{
    map.insert(key, peer)
}

/// `IndexMap::get`: the value of the key, if the key is there.
#[verifier::external_body]
pub(crate) fn get_peer<'a>(
    map: &'a IndexMap<(u32, [u8; 20]), Peer>,
    key: &(u32, [u8; 20]),
) -> (peer: Option<&'a Peer>)
    ensures
        match peer {
            Some(peer) => entries::lookup(peer_entries(*map), *key) == Some(*peer),
            None => entries::lookup(peer_entries(*map), *key) is None,
        },
{
    map.get(key)
}

/// `IndexMap::len`: the number of entries.
#[verifier::external_body]
pub(crate) fn count_peers(map: &IndexMap<(u32, [u8; 20]), Peer>) -> (count: usize)
    ensures
        count == peer_entries(*map).len(),
{
    map.len()
}

/// `IndexMap::get_index`: the entry at that place in the order, if the map
/// reaches that far.
#[verifier::external_body]
pub(crate) fn get_peer_at<'a>(map: &'a IndexMap<(u32, [u8; 20]), Peer>, index: usize) -> (entry:
    Option<(&'a (u32, [u8; 20]), &'a Peer)>)
    ensures
        match entry {
            Some((key, peer)) => {
                &&& index < peer_entries(*map).len()
                &&& peer_entries(*map)[index as int] == (*key, *peer)
            },
            None => index >= peer_entries(*map).len(),
        },
{
    map.get_index(index)
}

/// `IndexMap::get_index_mut`: the value at that place in the order, to be
/// changed where it stands. Every key, and every other value, stays as it is.
#[verifier::external_body]
pub(crate) fn get_peer_at_mut<'a>(
    map: &'a mut IndexMap<(u32, [u8; 20]), Peer>,
    index: usize,
) -> (entry: Option<&'a mut Peer>)
    ensures
        match entry {
            Some(peer) => {
                &&& index < peer_entries(*old(map)).len()
                &&& peer_entries(*old(map))[index as int].1 == *peer
                &&& peer_entries(*final(map)) == peer_entries(*old(map)).update(
                    index as int,
                    (peer_entries(*old(map))[index as int].0, *final(peer)),
                )
            },
            None => {
                &&& index >= peer_entries(*old(map)).len()
                &&& peer_entries(*final(map)) == peer_entries(*old(map))
            },
        },
{
    map.get_index_mut(index).map(|entry| entry.1)
}

/// `IndexMap::clone`: a map with the same entries in the same order.
#[verifier::external_body]
pub(crate) fn clone_peers(map: &IndexMap<(u32, [u8; 20]), Peer>) -> (copy: IndexMap<
    (u32, [u8; 20]),
    Peer,
>)
    ensures
        peer_entries(copy) == peer_entries(*map),
{
    map.clone()
}

/// The entries of a map from torrent ids to torrents, in the map's order.
pub uninterp spec fn torrent_entries(map: IndexMap<u32, Torrent>) -> Seq<(u32, Torrent)>;

/// `IndexMap::new`: a map without entries.
#[verifier::external_body]
pub(crate) fn new_torrents() -> (map: IndexMap<u32, Torrent>)
    ensures
        torrent_entries(map) == Seq::<(u32, Torrent)>::empty(),
{
    IndexMap::new()
}

/// `IndexMap::insert`: a key that is there keeps its place and gets the value,
/// a new key goes last. The value that the key had is given back.
#[verifier::external_body]
pub(crate) fn insert_torrent(map: &mut IndexMap<u32, Torrent>, id: u32, torrent: Torrent) -> (
    previous: Option<Torrent>)
    ensures
        torrent_entries(*final(map)) == entries::inserted(torrent_entries(*old(map)), id, torrent),
        previous == entries::lookup(torrent_entries(*old(map)), id),
{
    map.insert(id, torrent)
}

/// `IndexMap::get`: the value of the key, if the key is there.
#[verifier::external_body]
pub(crate) fn get_torrent<'a>(map: &'a IndexMap<u32, Torrent>, id: &u32) -> (torrent: Option<
    &'a Torrent,
>)
    ensures
        match torrent {
            Some(torrent) => entries::lookup(torrent_entries(*map), *id) == Some(*torrent),
            None => entries::lookup(torrent_entries(*map), *id) is None,
        },
{
    map.get(id)
}

/// `IndexMap::get_mut`: the value of the key, to be changed where it stands.
/// Every key, and every other value, stays as it is.
#[verifier::external_body]
pub(crate) fn get_torrent_mut<'a>(map: &'a mut IndexMap<u32, Torrent>, id: &u32) -> (torrent:
    Option<&'a mut Torrent>)
    ensures
        match torrent {
            Some(torrent) => {
                &&& entries::lookup(torrent_entries(*old(map)), *id) == Some(*torrent)
                &&& torrent_entries(*final(map)) == entries::inserted(
                    torrent_entries(*old(map)),
                    *id,
                    *final(torrent),
                )
            },
            None => {
                &&& entries::lookup(torrent_entries(*old(map)), *id) is None
                &&& torrent_entries(*final(map)) == torrent_entries(*old(map))
            },
        },
{
    map.get_mut(id)
}

/// `IndexMap::swap_remove`: takes the entry of the key out, moves the last
/// entry into its place, and gives the value back.
#[verifier::external_body]
pub(crate) fn swap_remove_torrent(map: &mut IndexMap<u32, Torrent>, id: &u32) -> (removed: Option<
    Torrent,
>)
    ensures
        torrent_entries(*final(map)) == entries::swap_removed(torrent_entries(*old(map)), *id),
        removed == entries::lookup(torrent_entries(*old(map)), *id),
{
    map.swap_remove(id)
}

/// `IndexMap::len`: the number of entries.
#[verifier::external_body]
pub(crate) fn count_torrents(map: &IndexMap<u32, Torrent>) -> (count: usize)
    ensures
        count == torrent_entries(*map).len(),
{
    map.len()
}

/// `IndexMap::get_index`: the entry at that place in the order, if the map
/// reaches that far.
#[verifier::external_body]
pub(crate) fn get_torrent_at<'a>(map: &'a IndexMap<u32, Torrent>, index: usize) -> (entry: Option<
    (&'a u32, &'a Torrent),
>)
    ensures
        match entry {
            Some((id, torrent)) => {
                &&& index < torrent_entries(*map).len()
                &&& torrent_entries(*map)[index as int] == (*id, *torrent)
            },
            None => index >= torrent_entries(*map).len(),
        },
{
    map.get_index(index)
}

/// `IndexMap::get_index_mut`: the value at that place in the order, to be
/// changed where it stands. Every key, and every other value, stays as it is.
#[verifier::external_body]
pub(crate) fn get_torrent_at_mut<'a>(map: &'a mut IndexMap<u32, Torrent>, index: usize) -> (entry:
    Option<&'a mut Torrent>)
    ensures
        match entry {
            Some(torrent) => {
                &&& index < torrent_entries(*old(map)).len()
                &&& torrent_entries(*old(map))[index as int].1 == *torrent
                &&& torrent_entries(*final(map)) == torrent_entries(*old(map)).update(
                    index as int,
                    (torrent_entries(*old(map))[index as int].0, *final(torrent)),
                )
            },
            None => {
                &&& index >= torrent_entries(*old(map)).len()
                &&& torrent_entries(*final(map)) == torrent_entries(*old(map))
            },
        },
{
    map.get_index_mut(index).map(|entry| entry.1)
}

} // verus!
