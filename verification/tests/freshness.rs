use std::time::{Duration, SystemTime};

use dcap_verify::clock::{seconds_at_distance, unix_seconds};
use dcap_verify::verify::{check_evaluation_round, check_validity_window};
use dcap_verify::ErrorCategory;

// The document validity window rejects on both sides of the
// window and accepts strictly inside it — identical logic for tcbInfo and QE
// identity.
#[test]
fn validity_window_rejects_both_bounds() {
    for stale in [ErrorCategory::TcbInfoStale, ErrorCategory::QeIdentityStale] {
        // issue = 100, nextUpdate = 200. Valid on [issueDate, nextUpdate):
        // the issue instant is in, the expiry instant is out.
        assert!(check_validity_window("doc", 100, 200, 150, stale).is_ok());
        assert!(check_validity_window("doc", 100, 200, 100, stale).is_ok()); // issue == now
        assert!(check_validity_window("doc", 100, 200, 199, stale).is_ok()); // last second inside

        // Not yet valid: now < issueDate. Stale: now >= nextUpdate, including
        // the exact expiry instant — both use the document's own category.
        let not_yet = check_validity_window("doc", 100, 200, 99, stale).unwrap_err();
        let at_expiry = check_validity_window("doc", 100, 200, 200, stale).unwrap_err();
        let expired = check_validity_window("doc", 100, 200, 201, stale).unwrap_err();
        assert_eq!(not_yet.category, stale);
        assert_eq!(at_expiry.category, stale);
        assert_eq!(expired.category, stale);
    }
}

// Pre-epoch verification times map to negative seconds; a clock set before
// 1970 must not alias into valid positive time.
#[test]
fn unix_seconds_is_negative_before_the_epoch() {
    let epoch = SystemTime::UNIX_EPOCH;
    assert_eq!(unix_seconds(epoch + Duration::from_secs(5)), 5);
    assert_eq!(unix_seconds(epoch - Duration::from_secs(5)), -5);
}

// However close to the epoch, a time before it is negative; the epoch itself is not.
#[test]
fn a_fraction_of_a_second_before_the_epoch_is_negative() {
    let epoch = SystemTime::UNIX_EPOCH;
    assert_eq!(unix_seconds(epoch - Duration::from_millis(500)), -1);
    assert_eq!(unix_seconds(epoch - Duration::from_nanos(100)), -1);
    assert_eq!(unix_seconds(epoch - Duration::from_millis(1500)), -1);
    assert_eq!(unix_seconds(epoch - Duration::from_millis(2500)), -2);
    assert_eq!(unix_seconds(epoch), 0);
    assert_eq!(unix_seconds(epoch + Duration::from_millis(500)), 0);
    assert_eq!(seconds_at_distance(Err(0)), -1);
    assert_eq!(seconds_at_distance(Err(u64::MAX)), -i64::MAX);
    assert_eq!(seconds_at_distance(Ok(u64::MAX)), i64::MAX);
}

// The evaluation-round floor is inclusive at the minimum and disabled at 0 —
// identical logic for both documents, each rejecting under its own category.
#[test]
fn evaluation_round_floor_is_inclusive_and_zero_disables() {
    for stale in [ErrorCategory::TcbInfoStale, ErrorCategory::QeIdentityStale] {
        assert!(check_evaluation_round("doc", 19, 0, stale).is_ok());
        assert!(check_evaluation_round("doc", 19, 19, stale).is_ok());
        let err = check_evaluation_round("doc", 19, 20, stale).unwrap_err();
        assert_eq!(err.category, stale);
    }
}

#[test]
fn validity_window_uses_the_documents_own_category() {
    let tcb =
        check_validity_window("tcbInfo", 100, 200, 99, ErrorCategory::TcbInfoStale).unwrap_err();
    assert_eq!(tcb.category, ErrorCategory::TcbInfoStale);
    let qe = check_validity_window("QE", 100, 200, 99, ErrorCategory::QeIdentityStale).unwrap_err();
    assert_eq!(qe.category, ErrorCategory::QeIdentityStale);
}

#[test]
fn staleness_details_give_the_times() {
    let stale = ErrorCategory::TcbInfoStale;
    let early = check_validity_window("TCB info", -5, 200, -6, stale).unwrap_err();
    assert_eq!(
        early.detail,
        "TCB info is not valid until unix -5, verification time is -6"
    );
    let late = check_validity_window("TCB info", 0, 1783470600, 1783470600, stale).unwrap_err();
    assert_eq!(
        late.detail,
        "TCB info expired at unix 1783470600, verification time is 1783470600"
    );
    let round = check_evaluation_round("TCB info", 19, 20, stale).unwrap_err();
    assert_eq!(
        round.detail,
        "TCB info is from TCB evaluation round 19, caller requires at least 20"
    );
}

#[test]
fn an_extreme_time_keeps_every_digit() {
    let stale = ErrorCategory::TcbInfoStale;
    let err = check_validity_window("doc", 0, i64::MIN, i64::MAX, stale).unwrap_err();
    assert_eq!(
        err.detail,
        "doc expired at unix -9223372036854775808, verification time is 9223372036854775807"
    );
}
