//! Tests for `is_over_upload_cap`, the check that decides whether a user's
//! total upload on a torrent has reached the configured percentage of the
//! torrent size, and for the store of the totals.

use tracker_store::store::upload_total::{is_over_upload_cap, DBUploadTotal, UploadTotalStore};

/// 499 bytes on a 100 byte torrent is 499%, one byte short of a 500%
/// threshold, so the user must not be capped yet.
#[test]
fn upload_cap_below_threshold() {
    assert!(
        !is_over_upload_cap(499, 100, 500),
        "499% of the torrent size must not reach a 500% threshold"
    );
}

/// Reaching the threshold exactly counts as capped (`>=`, not `>`).
#[test]
fn upload_cap_at_threshold() {
    assert!(
        is_over_upload_cap(500, 100, 500),
        "exactly 500% of the torrent size must reach a 500% threshold"
    );
}

/// Anything past the threshold is capped.
#[test]
fn upload_cap_above_threshold() {
    assert!(
        is_over_upload_cap(501, 100, 500),
        "501% of the torrent size must exceed a 500% threshold"
    );
}

/// Thresholds below 100% work too: with 50%, a user is capped after
/// uploading half the torrent size.
#[test]
fn upload_cap_threshold_below_100_percent() {
    assert!(
        !is_over_upload_cap(49, 100, 50),
        "49% of the torrent size must not reach a 50% threshold"
    );
    assert!(
        is_over_upload_cap(50, 100, 50),
        "50% of the torrent size must reach a 50% threshold"
    );
}

/// `UPLOAD_CAP_THRESHOLD=0` disables withholding, so nobody is
/// capped no matter how much they uploaded.
#[test]
fn upload_cap_zero_threshold_never_caps() {
    assert!(
        !is_over_upload_cap(u64::MAX, 100, 0),
        "a threshold of 0 must disable capping"
    );
}

/// A torrent without a known size must never cap anyone, otherwise every
/// uploader would be withheld.
#[test]
fn upload_cap_zero_size_never_caps() {
    assert!(
        !is_over_upload_cap(u64::MAX, 0, 500),
        "a torrent size of 0 must disable capping"
    );
}

/// A user who uploaded nothing is never capped, even with the lowest
/// possible threshold of 1%.
#[test]
fn upload_cap_nothing_uploaded() {
    assert!(
        !is_over_upload_cap(0, 100, 1),
        "a user without upload must never be capped"
    );
}

/// Both sides of the comparison multiply two u64 values. They are
/// widened to u128 first, so the maximum inputs must give the correct
/// answer instead of overflowing (which panics in debug builds and
/// wraps in release builds).
#[test]
fn upload_cap_does_not_overflow() {
    // u64::MAX * 100 == u64::MAX * 100: exactly at the threshold
    assert!(
        is_over_upload_cap(u64::MAX, u64::MAX, 100),
        "uploading the full size of a u64::MAX torrent must reach a 100% threshold"
    );
    // u64::MAX * 100 < u64::MAX * 101: just below the threshold
    assert!(
        !is_over_upload_cap(u64::MAX, u64::MAX, 101),
        "uploading the full size of a u64::MAX torrent must not reach a 101% threshold"
    );
    // u64::MAX * 100 >= 1 * u64::MAX: uploading u64::MAX bytes on a
    // 1 byte torrent is far more than u64::MAX percent
    assert!(
        is_over_upload_cap(u64::MAX, 1, u64::MAX),
        "u64::MAX bytes on a 1 byte torrent must reach a u64::MAX% threshold"
    );
    // u64::MAX * 100 < u64::MAX * u64::MAX: the largest possible
    // right-hand side still fits in a u128 and is not reached
    assert!(
        !is_over_upload_cap(u64::MAX, u64::MAX, u64::MAX),
        "u64::MAX bytes on a u64::MAX torrent must not reach a u64::MAX% threshold"
    );
}

/// More upload, a higher threshold and a larger torrent move the answer one
/// way only.
#[test]
fn upload_cap_is_monotone() {
    assert!(is_over_upload_cap(500, 100, 500));
    assert!(is_over_upload_cap(u64::MAX, 100, 500));
    assert!(!is_over_upload_cap(499, 100, 500));
    assert!(!is_over_upload_cap(499, 101, 500));
    assert!(!is_over_upload_cap(499, 100, 501));
}

#[test]
fn totals_are_kept_by_user() {
    let mut totals = UploadTotalStore::new();
    assert!(totals.is_empty());
    assert_eq!(totals.get(&7), None);

    assert_eq!(totals.insert(7, 70), None);
    assert_eq!(totals.insert(8, 80), None);
    assert_eq!(totals.insert(7, 71), Some(70));

    assert!(!totals.is_empty());
    assert_eq!(totals.get(&7), Some(&71));
    assert_eq!(totals.get(&8), Some(&80));
    assert_eq!(totals.get(&9), None);
}

#[test]
fn cloned_totals_are_independent() {
    let mut totals = UploadTotalStore::default();
    totals.insert(1, 10);

    let mut copy = totals.clone();
    copy.insert(1, 11);
    copy.insert(2, 20);

    assert_eq!(totals.get(&1), Some(&10));
    assert_eq!(totals.get(&2), None);
    assert_eq!(copy.get(&1), Some(&11));
    assert_eq!(copy.get(&2), Some(&20));
}

/// The last row of each user counts.
#[test]
fn totals_are_loaded_from_history() {
    let row = |user_id, actual_uploaded| DBUploadTotal { user_id, actual_uploaded };

    assert!(UploadTotalStore::from_db(&[]).is_empty());

    let totals = UploadTotalStore::from_db(&[row(1, 5), row(2, 6), row(1, 7)]);
    assert_eq!(totals.get(&1), Some(&7));
    assert_eq!(totals.get(&2), Some(&6));
    assert_eq!(totals.get(&3), None);
}
