//! Each user's total upload on a torrent, and the cap on it.

use indexmap::IndexMap;
use vstd::prelude::*;

use crate::store::entries;
use crate::store::index_map;

verus! {

/// Each user's total actual upload on a single torrent, keyed by user id.
/// Mirrors `history.actual_uploaded`. Only filled for torrents with
/// `upload_cap` enabled.
pub struct UploadTotalStore {
    inner: IndexMap<u32, u64>,
}

/// A user's total actual upload on one torrent, as `history` has it.
#[derive(Clone, Copy, Debug)]
pub struct DBUploadTotal {
    pub user_id: u32,
    pub actual_uploaded: u64,
}

/// What the user uploaded according to the totals: 0 where they have none.
pub open spec fn total_of(totals: Seq<(u32, u64)>, user_id: u32) -> u64 {
    match entries::lookup(totals, user_id) {
        Some(total) => total,
        None => 0,
    }
}

/// The totals that the rows of `history` leave, taken one after the other.
pub open spec fn totals_of_rows(rows: Seq<DBUploadTotal>) -> Seq<(u32, u64)>
    decreases rows.len(),
{
    if rows.len() == 0 {
        Seq::empty()
    } else {
        entries::inserted(
            totals_of_rows(rows.drop_last()),
            rows.last().user_id,
            rows.last().actual_uploaded,
        )
    }
}

/// The user's upload in the last row that is theirs, if there is one.
pub open spec fn last_upload_of(rows: Seq<DBUploadTotal>, user_id: u32) -> Option<u64>
    decreases rows.len(),
{
    if rows.len() == 0 {
        None
    } else if rows.last().user_id == user_id {
        Some(rows.last().actual_uploaded)
    } else {
        last_upload_of(rows.drop_last(), user_id)
    }
}

/// Loading keeps, of every user, the upload in the last row that is theirs,
/// and no user twice.
pub proof fn loaded_totals_are_the_last_of_each_user(rows: Seq<DBUploadTotal>, user_id: u32)
    ensures
        entries::lookup(totals_of_rows(rows), user_id) == last_upload_of(rows, user_id),
        entries::keys_distinct(totals_of_rows(rows)),
    decreases rows.len(),
{
    if rows.len() > 0 {
        let init = rows.drop_last();
        loaded_totals_are_the_last_of_each_user(init, user_id);
        entries::lookup_after_insert(
            totals_of_rows(init),
            rows.last().user_id,
            rows.last().actual_uploaded,
            user_id,
        );
        entries::insert_keeps_keys_distinct(
            totals_of_rows(init),
            rows.last().user_id,
            rows.last().actual_uploaded,
        );
    }
}

/// Loading gives a user the upload of the row at `i`, if that row is theirs and
/// no later one is, and gives them nothing if no row is theirs.
pub proof fn loaded_totals_are_columns_of_the_rows(rows: Seq<DBUploadTotal>, user_id: u32, i: int)
    ensures
        0 <= i < rows.len() && rows[i].user_id == user_id && (forall|j: int|
            i < j < rows.len() ==> (#[trigger] rows[j]).user_id != user_id) ==> entries::lookup(
            totals_of_rows(rows),
            user_id,
        ) == Some(rows[i].actual_uploaded),
        (forall|j: int| 0 <= j < rows.len() ==> (#[trigger] rows[j]).user_id != user_id)
            ==> entries::lookup(totals_of_rows(rows), user_id) is None,
    decreases rows.len(),
{
    if rows.len() > 0 {
        let init = rows.drop_last();
        assert(forall|j: int| 0 <= j < init.len() ==> init[j] == #[trigger] rows[j]);
        assert(rows.last() == rows[rows.len() - 1]);
        loaded_totals_are_columns_of_the_rows(init, user_id, i);
        entries::lookup_after_insert(
            totals_of_rows(init),
            rows.last().user_id,
            rows.last().actual_uploaded,
            user_id,
        );
    }
}

/// Users stand in the order of their first rows.
pub proof fn loaded_totals_keep_the_order_of_the_rows(rows: Seq<DBUploadTotal>, i: int, j: int)
    requires
        0 <= i < j < rows.len(),
        forall|k: int| 0 <= k < j ==> (#[trigger] rows[k]).user_id != rows[j].user_id,
    ensures
        match (
            entries::position(totals_of_rows(rows), rows[i].user_id),
            entries::position(totals_of_rows(rows), rows[j].user_id),
        ) {
            (Some(earlier), Some(later)) => earlier < later,
            _ => false,
        },
    decreases rows.len(),
{
    let init = rows.drop_last();
    let before = totals_of_rows(init);
    let last = rows[rows.len() - 1];
    assert(forall|k: int| 0 <= k < init.len() ==> init[k] == #[trigger] rows[k]);
    entries::position_after_insert(before, last.user_id, last.actual_uploaded, rows[i].user_id);
    entries::position_after_insert(before, last.user_id, last.actual_uploaded, rows[j].user_id);
    if j < init.len() {
        loaded_totals_keep_the_order_of_the_rows(init, i, j);
    } else {
        lemma_users_with_rows_have_totals(init, i);
        loaded_totals_are_columns_of_the_rows(init, rows[j].user_id, 0);
        entries::lemma_position(before, rows[i].user_id);
        entries::lemma_position(before, rows[j].user_id);
    }
}

/// The user of each row has a total.
proof fn lemma_users_with_rows_have_totals(rows: Seq<DBUploadTotal>, i: int)
    requires
        0 <= i < rows.len(),
    ensures
        entries::lookup(totals_of_rows(rows), rows[i].user_id) is Some,
    decreases rows.len(),
{
    let init = rows.drop_last();
    if i < init.len() {
        assert(init[i] == rows[i]);
        lemma_users_with_rows_have_totals(init, i);
    }
    entries::lookup_after_insert(
        totals_of_rows(init),
        rows.last().user_id,
        rows.last().actual_uploaded,
        rows[i].user_id,
    );
}

impl View for UploadTotalStore {
    type V = Seq<(u32, u64)>;

    /// The totals in the order in which the users came.
    closed spec fn view(&self) -> Seq<(u32, u64)> {
        index_map::total_entries(self.inner)
    }
}

impl UploadTotalStore {
    /// No user occurs twice.
    pub open spec fn wf(&self) -> bool {
        entries::keys_distinct(self@)
    }

    pub fn new() -> (store: UploadTotalStore)
        ensures
            store@ == Seq::<(u32, u64)>::empty(),
            store.wf(),
    {
        UploadTotalStore { inner: index_map::new_totals() }
    }

    /// Takes in every user's total actual upload on one torrent, as `history`
    /// has it.
    pub fn from_db(history: &[DBUploadTotal]) -> (store: UploadTotalStore)
        ensures
            store@ == totals_of_rows(history@),
            store.wf(),
    {
        let mut store = UploadTotalStore::new();
        let mut i: usize = 0;
        assert(history@.take(0) =~= Seq::empty());
        while i < history.len()
            invariant
                i <= history@.len(),
                store@ == totals_of_rows(history@.take(i as int)),
                store.wf(),
            decreases history@.len() - i,
        {
            assert(history@.take(i + 1).drop_last() =~= history@.take(i as int));
            store.insert(history[i].user_id, history[i].actual_uploaded);
            i = i + 1;
        }
        assert(history@.take(i as int) =~= history@);
        store
    }

    /// Sets the user's total and gives back the one that it replaces.
    pub fn insert(&mut self, user_id: u32, total: u64) -> (previous: Option<u64>)
        ensures
            final(self)@ == entries::inserted(old(self)@, user_id, total),
            previous == entries::lookup(old(self)@, user_id),
            forall|other: u32| #[trigger]
                entries::lookup(final(self)@, other) == if other == user_id {
                    Some(total)
                } else {
                    entries::lookup(old(self)@, other)
                },
            old(self).wf() ==> final(self).wf(),
    {
        proof {
            assert forall|other: u32| #[trigger]
                entries::lookup(entries::inserted(self@, user_id, total), other) == if other
                    == user_id {
                    Some(total)
                } else {
                    entries::lookup(self@, other)
                } by {
                entries::lookup_after_insert(self@, user_id, total, other);
            }
            if self.wf() {
                entries::insert_keeps_keys_distinct(self@, user_id, total);
            }
        }
        index_map::insert_total(&mut self.inner, user_id, total)
    }

    /// The user's total.
    pub fn get(&self, user_id: &u32) -> (total: Option<&u64>)
        ensures
            match total {
                Some(total) => entries::lookup(self@, *user_id) == Some(*total),
                None => entries::lookup(self@, *user_id) is None,
            },
    {
        index_map::get_total(&self.inner, user_id)
    }

    /// Whether no user has a total.
    pub fn is_empty(&self) -> (empty: bool)
        ensures
            empty == (self@.len() == 0),
    {
        index_map::has_no_totals(&self.inner)
    }

    /// What the user uploaded: 0 where they have no total.
    pub(crate) fn uploaded_by(&self, user_id: u32) -> (uploaded: u64)
        ensures
            uploaded == total_of(self@, user_id),
    {
        match self.get(&user_id) {
            Some(total) => *total,
            None => 0,
        }
    }
}

impl Default for UploadTotalStore {
    fn default() -> (store: UploadTotalStore)
        ensures
            store@ == Seq::<(u32, u64)>::empty(),
            store.wf(),
    {
        UploadTotalStore::new()
    }
}

impl Clone for UploadTotalStore {
    fn clone(&self) -> (copy: UploadTotalStore)
        ensures
            copy@ == self@,
    {
        UploadTotalStore { inner: index_map::clone_totals(&self.inner) }
    }
}

/// `uploaded` is at least `threshold_percent` percent of `size`. A threshold
/// or size of 0 is never reached.
pub open spec fn over_upload_cap(uploaded: u64, size: u64, threshold_percent: u64) -> bool {
    &&& threshold_percent != 0
    &&& size != 0
    &&& uploaded * 100 >= size * threshold_percent
}

/// Whether a user who uploaded `uploaded` bytes on a torrent of `size` bytes
/// has reached `threshold_percent` of the torrent size. A threshold or size of
/// 0 never caps.
///
/// Integer math only: widened to u128 so the multiplication can't overflow.
#[inline]
pub fn is_over_upload_cap(uploaded: u64, size: u64, threshold_percent: u64) -> (over: bool)
    ensures
        over == over_upload_cap(uploaded, size, threshold_percent),
        over <==> threshold_percent != 0 && size != 0 && uploaded * 100 >= size
            * threshold_percent,
{
    assert(uploaded * 100 <= u128::MAX && 0 <= size * threshold_percent <= u128::MAX)
        by (nonlinear_arith)
        requires
            uploaded <= u64::MAX,
            size <= u64::MAX,
            threshold_percent <= u64::MAX,
    ;
    threshold_percent != 0 && size != 0 && uploaded as u128 * 100 >= size as u128
        * threshold_percent as u128
}

/// A user who is capped stays capped however much more they upload.
pub proof fn more_upload_never_uncaps(uploaded: u64, more: u64, size: u64, threshold_percent: u64)
    requires
        uploaded <= more,
        over_upload_cap(uploaded, size, threshold_percent),
    ensures
        over_upload_cap(more, size, threshold_percent),
{
}

/// A user who is not capped stays so when the threshold is raised, or the
/// torrent is larger, as long as a threshold and a size are set.
pub proof fn raising_the_bar_never_caps(
    uploaded: u64,
    size: u64,
    larger_size: u64,
    threshold_percent: u64,
    higher_percent: u64,
)
    requires
        0 < size <= larger_size,
        0 < threshold_percent <= higher_percent,
        !over_upload_cap(uploaded, size, threshold_percent),
    ensures
        !over_upload_cap(uploaded, larger_size, higher_percent),
{
    assert(size * threshold_percent <= larger_size * higher_percent) by (nonlinear_arith)
        requires
            0 < size <= larger_size,
            0 < threshold_percent <= higher_percent,
    ;
}

/// A user without upload is never capped.
pub proof fn nothing_uploaded_never_caps(size: u64, threshold_percent: u64)
    ensures
        !over_upload_cap(0, size, threshold_percent),
{
    assert(size != 0 && threshold_percent != 0 ==> size * threshold_percent > 0)
        by (nonlinear_arith);
}

/// Without a threshold, or without a known torrent size, nobody is capped.
pub proof fn zero_threshold_or_size_never_caps(uploaded: u64, size: u64, threshold_percent: u64)
    requires
        size == 0 || threshold_percent == 0,
    ensures
        !over_upload_cap(uploaded, size, threshold_percent),
{
}

/// A user is over the cap exactly if a threshold and a size are set and a
/// hundred times the upload is at least the size times the threshold.
pub proof fn cap_is_reached_at_the_percentage(uploaded: u64, size: u64, threshold_percent: u64)
    ensures
        over_upload_cap(uploaded, size, threshold_percent) <==> 0 < threshold_percent && 0 < size
            && 100 * uploaded >= threshold_percent * size,
{
    assert(threshold_percent * size == size * threshold_percent) by (nonlinear_arith);
}

/// What a user uploaded is the total beside them, and 0 where they have none.
pub proof fn uploaded_is_the_total_beside_the_user(
    totals: Seq<(u32, u64)>,
    user_id: u32,
    i: int,
)
    requires
        forall|a: int, b: int|
            0 <= a < b < totals.len() ==> (#[trigger] totals[a]).0 != (#[trigger] totals[b]).0,
    ensures
        0 <= i < totals.len() && totals[i].0 == user_id ==> total_of(totals, user_id)
            == totals[i].1,
        (forall|j: int| 0 <= j < totals.len() ==> (#[trigger] totals[j]).0 != user_id)
            ==> total_of(totals, user_id) == 0,
{
    entries::lookup_gives_the_value_beside_the_key(totals, user_id, i);
}

} // verus!
