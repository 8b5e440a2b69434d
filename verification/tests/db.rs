use trident::errors::{ErrorSource, Severity, StorageFault, TridentError};
use trident::ids::event_uuid;
use trident::indexer::db::failures::{
    classify_storage_failure, poll_millis, replay_outcome, stored_cursor, ReplayOutcome,
    StorageFailure,
};
use trident::indexer::db::partitions::assert_no_default_partition_overflow;

fn reported(message: &str, fault: StorageFault) -> TridentError {
    TridentError::storage(
        ErrorSource::storage_fault(message.to_string(), fault).context("test".to_string()),
    )
}

fn answered(code: Option<&str>) -> TridentError {
    reported("answered", StorageFault::Database { code: code.map(str::to_string) })
}

#[test]
fn connection_level_io_error_is_transient() {
    let err = reported("reset", StorageFault::Io);
    assert_eq!(classify_storage_failure(&err), StorageFailure::Transient);
}

#[test]
fn pool_timeout_is_transient() {
    let err = reported("pool timed out", StorageFault::PoolTimedOut);
    assert_eq!(classify_storage_failure(&err), StorageFailure::Transient);
}

#[test]
fn column_decode_error_is_permanent() {
    let err = reported("bad column", StorageFault::Other);
    assert_eq!(classify_storage_failure(&err), StorageFailure::Permanent);
}

#[test]
fn error_with_no_sqlx_source_is_permanent() {
    let err = TridentError::storage(ErrorSource::msg("not a valid timestamp".to_string()));
    assert_eq!(classify_storage_failure(&err), StorageFailure::Permanent);
}

#[test]
fn non_storage_error_is_permanent() {
    let err = TridentError::config(ErrorSource::msg("missing DATABASE_URL".to_string()));
    assert_eq!(classify_storage_failure(&err), StorageFailure::Permanent);
}

#[test]
fn answers_are_judged_by_their_class() {
    for code in ["08006", "53300", "57P01", "40001", "40P01"] {
        assert_eq!(classify_storage_failure(&answered(Some(code))), StorageFailure::Transient);
    }
    for code in ["23505", "22P02", "42601"] {
        assert_eq!(classify_storage_failure(&answered(Some(code))), StorageFailure::Permanent);
    }
    assert_eq!(classify_storage_failure(&answered(None)), StorageFailure::Permanent);
}

/// Deterministic UUID: same inputs must produce the same id.
#[test]
fn event_uuid_is_deterministic() {
    let a = event_uuid("CABC", 100, 0);
    let b = event_uuid("CABC", 100, 0);
    assert_eq!(a, b);
}

/// Different natural keys must produce different UUIDs.
#[test]
fn event_uuid_varies_with_inputs() {
    let a = event_uuid("CABC", 100, 0);
    let b = event_uuid("CABC", 100, 1);
    assert_ne!(a, b);
}

/// `assert_no_default_partition_overflow` must be a no-op when every
/// ledger_sequence in the batch is strictly below the upper bound.
#[test]
fn overflow_check_passes_when_all_sequences_within_bound() {
    let sequences = vec![0i64, 1_000_000, 1_999_999];
    assert!(
        assert_no_default_partition_overflow(&sequences, &[(0, 2_000_000)]).is_ok(),
        "sequences strictly below upper bound must not trigger overflow"
    );
}

/// A batch containing a sequence exactly at the upper bound must fail —
/// the upper bound is exclusive (Postgres `FOR VALUES FROM (start) TO (end)`
/// means `start <= seq < end`).
#[test]
fn overflow_check_fails_when_sequence_equals_upper_bound() {
    let sequences = vec![1_999_998i64, 2_000_000];
    let err = assert_no_default_partition_overflow(&sequences, &[(0, 2_000_000)])
        .expect_err("sequence == upper_bound should trigger overflow");
    // Must be a ConfigError so the poll loop treats it as Fatal.
    assert!(
        matches!(err, TridentError::ConfigError { .. }),
        "overflow must produce a ConfigError (Fatal severity), got: {err:?}"
    );
    assert!(
        err.to_string().contains("2000000"),
        "error message must name the offending sequence"
    );
}

/// A batch containing a sequence beyond the upper bound must fail.
#[test]
fn overflow_check_fails_when_sequence_exceeds_upper_bound() {
    let sequences = vec![58_000_001i64, 60_000_001];
    let err = assert_no_default_partition_overflow(&sequences, &[(0, 60_000_000)])
        .expect_err("sequence > upper_bound should trigger overflow");
    assert!(matches!(err, TridentError::ConfigError { .. }));
    // Error message must carry the create_soroban_partition hint so on-call
    // knows exactly what SQL to run.
    let msg = err.to_string();
    assert!(
        msg.contains("create_soroban_partition"),
        "error message must include the create_soroban_partition hint"
    );
}

/// A ledger in a gap between partitions is below the highest upper bound, and covered by none.
#[test]
fn overflow_check_fails_for_sequence_in_gap_between_partitions() {
    let shape_with_a_gap = &[
        (0i64, 2_000_000i64),
        (2_000_000, 4_000_000),
        (4_000_000, 6_000_000),
        (50_000_000, 52_000_000),
        (52_000_000, 54_000_000),
        (54_000_000, 56_000_000),
        (56_000_000, 58_000_000),
        (58_000_000, 60_000_000),
    ];
    // Below MAX(upper_bound) = 60_000_000, but inside the 6M-50M hole.
    let err = assert_no_default_partition_overflow(&[20_000_000i64], shape_with_a_gap)
        .expect_err("a ledger inside a partition gap must be rejected");
    let msg = err.to_string();
    assert!(
        msg.contains("20000000"),
        "error must name the uncovered sequence, got: {msg}"
    );
    assert!(
        msg.contains("create_soroban_partition"),
        "error must include the remediation hint, got: {msg}"
    );
    // Sequences that ARE covered by the same shape must still pass.
    assert!(
        assert_no_default_partition_overflow(&[5_999_999i64, 50_000_000], shape_with_a_gap)
            .is_ok(),
        "covered sequences must not be flagged"
    );
}

/// An empty batch must never trigger the overflow check regardless of the
/// partition boundary value.
#[test]
fn overflow_check_passes_for_empty_batch() {
    assert!(
        assert_no_default_partition_overflow(&[], &[]).is_ok(),
        "empty batch must never trigger overflow"
    );
}

/// The overflow is detected as Fatal by the error taxonomy, so the poll
/// loop halts rather than retrying.
#[test]
fn overflow_error_is_fatal_not_retryable() {
    let err = assert_no_default_partition_overflow(&[60_000_001i64], &[(0, 60_000_000)])
        .expect_err("should overflow");
    assert_eq!(
        err.severity(),
        Severity::Fatal,
        "partition overflow must be Fatal so the indexer halts"
    );
    assert!(err.fatal());
    assert!(!err.retryable());
}

#[test]
fn cursors_are_read_as_numbers() {
    assert_eq!(stored_cursor("900").unwrap(), 900);
    let err = stored_cursor("nine").unwrap_err();
    assert_eq!(err.source().chain_text(), "cursor parse: invalid digit found in string");
}

#[test]
fn poll_times_saturate() {
    assert_eq!(poll_millis(1_500_000), 1);
    assert_eq!(poll_millis(u128::MAX), i32::MAX);
}

#[test]
fn replays_need_a_row_that_was_marked() {
    assert_eq!(replay_outcome(true, 1), ReplayOutcome::Replayed);
    assert_eq!(replay_outcome(true, 0), ReplayOutcome::AlreadyReplayedOrMissing);
    assert_eq!(replay_outcome(false, 0), ReplayOutcome::AlreadyReplayedOrMissing);
}
