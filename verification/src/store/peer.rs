//! The peers of a swarm.

use indexmap::IndexMap;
use vstd::prelude::*;

use crate::config::Config;
use crate::model::{IpAddr, PeerId, Timestamp};
use crate::store::entries;
use crate::store::index_map;

verus! {

/// The peers of a swarm, keyed by user and client.
pub struct PeerStore {
    inner: IndexMap<(u32, [u8; 20]), Peer>,
}

/// One client of one user.
#[derive(Clone, Copy, Debug, PartialEq, Eq, Hash)]
pub struct Index {
    pub user_id: u32,
    pub peer_id: PeerId,
}

/// The decimal digits of a number, without leading zeros.
pub open spec fn decimal(number: nat) -> Seq<char>
    decreases number,
{
    if number < 10 {
        seq![digit(number)]
    } else {
        decimal(number / 10).push(digit(number % 10))
    }
}

/// The decimal digit of a number below ten.
pub open spec fn digit(number: nat) -> char {
    ('0' as u32 + number) as char
}

/// Writes the digits of a number after what the text already holds.
fn push_decimal(text: &mut String, number: u32)
    ensures
        final(text)@ == old(text)@ + decimal(number as nat),
    decreases number,
{
    if number >= 10 {
        push_decimal(text, number / 10);
    }
    let last: u32 = number % 10;
    proof {
        reveal_strlit("0");
        reveal_strlit("1");
        reveal_strlit("2");
        reveal_strlit("3");
        reveal_strlit("4");
        reveal_strlit("5");
        reveal_strlit("6");
        reveal_strlit("7");
        reveal_strlit("8");
        reveal_strlit("9");
    }
    let symbol: &str = match last {
        0 => "0",
        1 => "1",
        2 => "2",
        3 => "3",
        4 => "4",
        5 => "5",
        6 => "6",
        7 => "7",
        8 => "8",
        _ => "9",
    };
    assert(symbol@ =~= seq![digit(last as nat)]);
    text.append(symbol);
    assert(text@ =~= old(text)@ + decimal(number as nat));
}

impl Index {
    /// The text of the index: the user id, a hyphen, and the text of the peer
    /// id.
    pub fn to_text(&self, peer_id: &str) -> (text: String)
        ensures
            text@ == decimal(self.user_id as nat) + seq!['-'] + peer_id@,
    {
        proof {
            reveal_strlit("-");
        }
        let mut text = String::new();
        push_decimal(&mut text, self.user_id);
        text.append("-");
        text.append(peer_id);
        assert(text@ =~= decimal(self.user_id as nat) + seq!['-'] + peer_id@);
        text
    }
}

#[derive(Clone, Copy, Debug)]
pub struct Peer {
    pub ip_address: IpAddr,
    pub port: u16,
    pub is_seeder: bool,
    pub is_active: bool,
    pub is_visible: bool,
    pub is_connectable: bool,
    pub has_sent_completed: bool,
    pub updated_at: Timestamp,
    pub uploaded: u64,
    pub downloaded: u64,
    /// Cached result of `upload_total::is_over_upload_cap` for this peer's
    /// user. Only read when the torrent has `upload_cap` enabled.
    pub is_upload_capped: bool,
}

impl Peer {
    /// The peer is active and visible, and connectable where that is asked
    /// for.
    pub open spec fn in_peer_list(self, config: Config) -> bool {
        &&& self.is_active
        &&& self.is_visible
        &&& config.require_peer_connectivity ==> self.is_connectable
    }

    /// The peer is a seeder among the peers to be listed.
    pub open spec fn in_seed_list(self, config: Config) -> bool {
        self.is_seeder && self.in_peer_list(config)
    }

    /// The peer is no seeder, and among the peers to be listed.
    pub open spec fn in_leech_list(self, config: Config) -> bool {
        !self.is_seeder && self.in_peer_list(config)
    }

    /// The peer is left out of a peer list that withholds capped peers, or not.
    pub open spec fn withheld(self, withholds_capped_peers: bool) -> bool {
        withholds_capped_peers && self.is_upload_capped
    }

    /// The peer with its cached cap flag set to `capped`, and nothing else
    /// changed.
    pub open spec fn with_upload_capped(self, capped: bool) -> Peer {
        Peer { is_upload_capped: capped, ..self }
    }

    /// Determines if the peer should be listed among the torrent's peers
    #[inline(always)]
    pub fn is_included_in_peer_list(&self, config: &Config) -> (listed: bool)
        ensures
            listed == self.in_peer_list(*config),
            listed <==> self.is_active && self.is_visible && (self.is_connectable
                || !config.require_peer_connectivity),
    {
        if config.require_peer_connectivity {
            self.is_active && self.is_visible && self.is_connectable
        } else {
            self.is_active && self.is_visible
        }
    }

    /// Determines if the peer should be listed among the torrent's seeds
    #[inline(always)]
    pub fn is_included_in_seed_list(&self, config: &Config) -> (listed: bool)
        ensures
            listed == self.in_seed_list(*config),
            listed <==> self.is_seeder && self.is_active && self.is_visible && (
            self.is_connectable || !config.require_peer_connectivity),
    {
        self.is_seeder && self.is_included_in_peer_list(config)
    }

    /// Determines if the peer should be listed among the torrent's leeches
    #[inline(always)]
    pub fn is_included_in_leech_list(&self, config: &Config) -> (listed: bool)
        ensures
            listed == self.in_leech_list(*config),
            listed <==> !self.is_seeder && self.is_active && self.is_visible && (
            self.is_connectable || !config.require_peer_connectivity),
    {
        !self.is_seeder && self.is_included_in_peer_list(config)
    }

    /// Determines if the peer should be left out of peer lists because its
    /// user reached the upload cap on a torrent with upload cap enabled
    #[inline(always)]
    pub fn is_withheld(&self, withholds_capped_peers: bool) -> (withheld: bool)
        ensures
            withheld == self.withheld(withholds_capped_peers),
            withheld <==> withholds_capped_peers && self.is_upload_capped,
    {
        withholds_capped_peers && self.is_upload_capped
    }
}

/// Every listed peer is a listed seed or a listed leech, and no peer is both.
pub proof fn seeds_and_leeches_divide_the_peer_list(peer: Peer, config: Config)
    ensures
        peer.in_peer_list(config) == (peer.in_seed_list(config) || peer.in_leech_list(config)),
        !(peer.in_seed_list(config) && peer.in_leech_list(config)),
{
}

/// Whether a peer is listed, and as what, does not depend on its cap flag.
pub proof fn capping_leaves_the_lists_untouched(peer: Peer, capped: bool, config: Config)
    ensures
        peer.with_upload_capped(capped).in_peer_list(config) == peer.in_peer_list(config),
        peer.with_upload_capped(capped).in_seed_list(config) == peer.in_seed_list(config),
        peer.with_upload_capped(capped).in_leech_list(config) == peer.in_leech_list(config),
{
}

/// A listed peer is active and visible and, where connectivity is required,
/// connectable, whether it is a seed or a leech. Every such peer is listed.
pub proof fn listed_peers_are_those_that_can_be_handed_out(peer: Peer, config: Config)
    ensures
        peer.in_peer_list(config) ==> peer.is_active && peer.is_visible,
        peer.in_peer_list(config) && config.require_peer_connectivity ==> peer.is_connectable,
        peer.is_active && peer.is_visible && peer.is_connectable ==> peer.in_peer_list(config),
        peer.is_active && peer.is_visible && !config.require_peer_connectivity
            ==> peer.in_peer_list(config),
{
}

/// Two peers that are alike in being active, visible and connectable are both
/// listed or both not, whatever else they differ in, under any two settings
/// that are alike in whether connectivity is required.
pub proof fn listing_depends_on_nothing_else(
    peer: Peer,
    other: Peer,
    config: Config,
    other_config: Config,
)
    requires
        peer.is_active == other.is_active,
        peer.is_visible == other.is_visible,
        peer.is_connectable == other.is_connectable,
        config.require_peer_connectivity == other_config.require_peer_connectivity,
    ensures
        peer.in_peer_list(config) == other.in_peer_list(other_config),
        peer.is_seeder == other.is_seeder ==> peer.in_seed_list(config) == other.in_seed_list(
            other_config,
        ),
        peer.is_seeder == other.is_seeder ==> peer.in_leech_list(config) == other.in_leech_list(
            other_config,
        ),
{
}

/// A listed seed is a seeder, a listed leech is none, and both are active,
/// visible and, where connectivity is required, connectable. Every such seeder
/// is a listed seed, and every other such peer a listed leech.
pub proof fn listed_seeds_and_leeches_are_as_the_peer_says(peer: Peer, config: Config)
    ensures
        peer.in_seed_list(config) || peer.in_leech_list(config) ==> peer.is_active
            && peer.is_visible && (config.require_peer_connectivity ==> peer.is_connectable),
        peer.in_seed_list(config) ==> peer.is_seeder,
        peer.in_leech_list(config) ==> !peer.is_seeder,
        peer.is_active && peer.is_visible && (config.require_peer_connectivity
            ==> peer.is_connectable) ==> if peer.is_seeder {
            peer.in_seed_list(config)
        } else {
            peer.in_leech_list(config)
        },
{
}

/// A peer is withheld if it is capped and capped peers are withheld, and in no
/// other case.
pub proof fn only_capped_peers_are_withheld(peer: Peer, withholds_capped_peers: bool)
    ensures
        peer.is_upload_capped ==> peer.withheld(true),
        !peer.is_upload_capped ==> !peer.withheld(withholds_capped_peers),
        !peer.withheld(false),
{
}

/// Setting the cap flag leaves every other field of a peer as it was.
pub proof fn capping_changes_the_flag_alone(peer: Peer, capped: bool)
    ensures
        peer.with_upload_capped(capped).is_upload_capped == capped,
        peer.with_upload_capped(capped).ip_address == peer.ip_address,
        peer.with_upload_capped(capped).port == peer.port,
        peer.with_upload_capped(capped).is_seeder == peer.is_seeder,
        peer.with_upload_capped(capped).is_active == peer.is_active,
        peer.with_upload_capped(capped).is_visible == peer.is_visible,
        peer.with_upload_capped(capped).is_connectable == peer.is_connectable,
        peer.with_upload_capped(capped).has_sent_completed == peer.has_sent_completed,
        peer.with_upload_capped(capped).updated_at == peer.updated_at,
        peer.with_upload_capped(capped).uploaded == peer.uploaded,
        peer.with_upload_capped(capped).downloaded == peer.downloaded,
{
}

/// A number ends in its digit of ones, with the digits of its tens before that,
/// and a number below ten is its digit alone.
pub proof fn decimal_ends_in_the_ones(number: nat)
    ensures
        decimal(number).len() >= 1,
        decimal(number)[decimal(number).len() - 1] as u32 == 48 + number % 10,
        number < 10 ==> decimal(number).len() == 1,
        number >= 10 ==> decimal(number).subrange(0, decimal(number).len() - 1) == decimal(
            number / 10,
        ),
{
    if number >= 10 {
        assert(decimal(number).subrange(0, decimal(number).len() - 1) =~= decimal(number / 10));
    }
}

/// Every character of a number is a digit, and only 0 itself starts with one.
pub proof fn decimal_has_digits_and_no_leading_zero(number: nat, i: int)
    requires
        0 <= i < decimal(number).len(),
    ensures
        48 <= decimal(number)[i] as u32 <= 57,
        decimal(number)[0] == '0' ==> number == 0,
    decreases number,
{
    if number >= 10 {
        let tens = decimal(number / 10);
        decimal_ends_in_the_ones(number / 10);
        decimal_has_digits_and_no_leading_zero(number / 10, 0);
        if i < tens.len() {
            decimal_has_digits_and_no_leading_zero(number / 10, i);
        }
    }
}

/// Different numbers have different digits.
pub proof fn decimal_tells_numbers_apart(left: nat, right: nat)
    requires
        decimal(left) == decimal(right),
    ensures
        left == right,
    decreases left,
{
    decimal_ends_in_the_ones(left);
    decimal_ends_in_the_ones(right);
    if left >= 10 && right >= 10 {
        decimal_tells_numbers_apart(left / 10, right / 10);
    } else if left >= 10 {
        decimal_ends_in_the_ones(left / 10);
    } else if right >= 10 {
        decimal_ends_in_the_ones(right / 10);
    }
}

/// The entries of the inner map, each keyed by the index that its key stands
/// for.
spec fn by_index(inner: Seq<((u32, [u8; 20]), Peer)>) -> Seq<(Index, Peer)> {
    Seq::new(
        inner.len(),
        |i: int|
            (
                Index { user_id: inner[i].0.0, peer_id: PeerId(inner[i].0.1) },
                inner[i].1,
            ),
    )
}

/// An index stands where its key stands.
proof fn lemma_by_index_position(inner: Seq<((u32, [u8; 20]), Peer)>, index: Index)
    ensures
        entries::position(by_index(inner), index) == entries::position(
            inner,
            (index.user_id, index.peer_id.0),
        ),
{
    let key = (index.user_id, index.peer_id.0);
    entries::lemma_position(inner, key);
    entries::lemma_position(by_index(inner), index);
    if let Some(i) = entries::position(inner, key) {
        assert(by_index(inner)[i].0 == index);
        assert forall|j: int| 0 <= j < i implies (#[trigger] by_index(inner)[j]).0 != index by {
            assert(inner[j].0 != key);
        }
        entries::lemma_position_at(by_index(inner), index, i);
    }
    if let Some(i) = entries::position(by_index(inner), index) {
        assert(inner[i].0 == key);
    }
}

impl View for PeerStore {
    type V = Seq<(Index, Peer)>;

    /// The peers in the order in which they came.
    closed spec fn view(&self) -> Seq<(Index, Peer)> {
        by_index(index_map::peer_entries(self.inner))
    }
}

impl PeerStore {
    /// No peer occurs twice.
    pub open spec fn wf(&self) -> bool {
        entries::keys_distinct(self@)
    }

    pub fn new() -> (store: PeerStore)
        ensures
            store@ == Seq::<(Index, Peer)>::empty(),
            store.wf(),
    {
        PeerStore { inner: index_map::new_peers() }
    }

    /// Puts the peer under its index and gives back the one that it replaces.
    pub fn insert(&mut self, index: Index, peer: Peer) -> (previous: Option<Peer>)
        ensures
            final(self)@ == entries::inserted(old(self)@, index, peer),
            previous == entries::lookup(old(self)@, index),
            forall|other: Index| #[trigger]
                entries::lookup(final(self)@, other) == if other == index {
                    Some(peer)
                } else {
                    entries::lookup(old(self)@, other)
                },
            old(self).wf() ==> final(self).wf(),
    {
        proof {
            assert forall|other: Index| #[trigger]
                entries::lookup(entries::inserted(self@, index, peer), other) == if other
                    == index {
                    Some(peer)
                } else {
                    entries::lookup(self@, other)
                } by {
                entries::lookup_after_insert(self@, index, peer, other);
            }
            let inner = index_map::peer_entries(self.inner);
            let key = (index.user_id, index.peer_id.0);
            lemma_by_index_position(inner, index);
            entries::lemma_position(inner, key);
            assert(by_index(entries::inserted(inner, key, peer)) =~= entries::inserted(
                by_index(inner),
                index,
                peer,
            ));
            if self.wf() {
                entries::insert_keeps_keys_distinct(self@, index, peer);
            }
        }
        index_map::insert_peer(&mut self.inner, (index.user_id, index.peer_id.0), peer)
    }

    /// The peer under the index.
    pub fn get(&self, index: &Index) -> (peer: Option<&Peer>)
        ensures
            match peer {
                Some(peer) => entries::lookup(self@, *index) == Some(*peer),
                None => entries::lookup(self@, *index) is None,
            },
    {
        proof {
            let inner = index_map::peer_entries(self.inner);
            lemma_by_index_position(inner, *index);
            entries::lemma_position(inner, (index.user_id, index.peer_id.0));
        }
        index_map::get_peer(&self.inner, &(index.user_id, index.peer_id.0))
    }

    /// The number of peers.
    pub fn len(&self) -> (count: usize)
        ensures
            count == self@.len(),
    {
        index_map::count_peers(&self.inner)
    }

    /// The peer at that place in the order, and its index.
    pub fn get_index(&self, place: usize) -> (entry: Option<(Index, &Peer)>)
        ensures
            match entry {
                Some((index, peer)) => {
                    &&& place < self@.len()
                    &&& self@[place as int] == (index, *peer)
                },
                None => place >= self@.len(),
            },
    {
        match index_map::get_peer_at(&self.inner, place) {
            Some((key, peer)) => Some(
                (Index { user_id: key.0, peer_id: PeerId(key.1) }, peer),
            ),
            None => None,
        }
    }

    /// Sets the cached cap flag of the peer at that place in the order.
    pub(crate) fn set_upload_capped(&mut self, place: usize, capped: bool)
        requires
            place < old(self)@.len(),
        ensures
            final(self)@ == old(self)@.update(
                place as int,
                (
                    old(self)@[place as int].0,
                    old(self)@[place as int].1.with_upload_capped(capped),
                ),
            ),
    {
        if let Some(peer) = index_map::get_peer_at_mut(&mut self.inner, place) {
            peer.is_upload_capped = capped;
        }
    }
}

impl Default for PeerStore {
    fn default() -> (store: PeerStore)
        ensures
            store@ == Seq::<(Index, Peer)>::empty(),
            store.wf(),
    {
        PeerStore::new()
    }
}

impl Clone for PeerStore {
    fn clone(&self) -> (copy: PeerStore)
        ensures
            copy@ == self@,
    {
        PeerStore { inner: index_map::clone_peers(&self.inner) }
    }
}

} // verus!
