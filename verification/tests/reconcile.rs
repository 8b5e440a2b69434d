use std::collections::HashMap;
use trident::indexer::reconcile::{build_report, tally, DiscrepantRange};

fn counts(pairs: &[(u64, u64)]) -> HashMap<u64, u64> {
    pairs.iter().copied().collect()
}

#[test]
fn matching_counts_produce_a_clean_report() {
    let rpc = counts(&[(10, 3), (11, 1)]);
    let db = counts(&[(10, 3), (11, 1)]);
    let report = build_report(10, 12, &rpc, &db, false);
    assert!(report.discrepant_ranges.is_empty());
    assert_eq!(report.rpc_events, 4);
    assert_eq!(report.db_events, 4);
}

#[test]
fn contiguous_discrepant_ledgers_coalesce_into_one_range() {
    // Ledgers 11-13 all disagree; 10 and 14 agree.
    let rpc = counts(&[(10, 2), (11, 3), (12, 1), (13, 2)]);
    let db = counts(&[(10, 2), (11, 1), (13, 1), (14, 0)]);
    let report = build_report(10, 14, &rpc, &db, false);
    assert_eq!(
        report.discrepant_ranges,
        vec![DiscrepantRange {
            from_ledger: 11,
            to_ledger: 13,
            rpc_events: 6,
            db_events: 2,
        }]
    );
    assert_eq!(report.missing_events(), 4);
    assert_eq!(report.extra_events(), 0);
}

#[test]
fn separate_discrepancies_report_separate_ranges() {
    // Discrepant ledgers 10, 12, 14 with clean ledgers 11 and 13 between
    // them: three distinct ranges, not one.
    let rpc = counts(&[(10, 1), (14, 1)]);
    let db = counts(&[(12, 5)]);
    let report = build_report(10, 14, &rpc, &db, false);
    assert_eq!(report.discrepant_ranges.len(), 3);
    // Extra events (indexed rows the chain never emitted) are reported
    // too — over-indexing is as wrong as under-indexing.
    assert_eq!(report.missing_events(), 2);
    assert_eq!(report.extra_events(), 5);
}

#[test]
fn counts_outside_the_window_are_ignored() {
    // A clamped (truncated) walk can leave a partially counted ledger
    // past the compare window in the RPC map; it must not surface as a
    // discrepancy.
    let rpc = counts(&[(10, 1), (13, 7)]);
    let db = counts(&[(10, 1)]);
    let report = build_report(10, 12, &rpc, &db, true);
    assert!(report.discrepant_ranges.is_empty());
    assert!(report.truncated);
}

#[test]
fn ledgers_with_zero_events_on_both_sides_are_clean() {
    let report = build_report(100, 500, &HashMap::new(), &HashMap::new(), false);
    assert!(report.discrepant_ranges.is_empty());
}

#[test]
fn discrepant_ledgers_are_counted() {
    let rpc = counts(&[(10, 2), (11, 3), (12, 1), (13, 2)]);
    let db = counts(&[(10, 2), (11, 1), (13, 1), (14, 0)]);
    let report = build_report(10, 14, &rpc, &db, false);
    assert_eq!(report.discrepant_ledgers(), 3);
    let notice = report.notice();
    assert_eq!(notice.missing_events, 4);
    assert_eq!(notice.extra_events, 0);
    assert!(!notice.clean);
    assert!(!notice.clamped);
}

#[test]
fn tallied_rows_add_up() {
    let mut db = counts(&[(7, 1)]);
    tally(&mut db, &[(7, 2), (9, 5)]);
    assert_eq!(db.get(&7), Some(&3));
    assert_eq!(db.get(&9), Some(&5));
    assert_eq!(db.len(), 2);
}

#[test]
fn reports_out_of_a_comparison_add_up() {
    let rpc = counts(&[(10, 1), (14, 1)]);
    let mut report = build_report(10, 14, &rpc, &counts(&[(12, 5)]), false);
    assert!(report.adds_up());
    report.discrepant_ranges[0].from_ledger = 20;
    assert!(!report.adds_up());
}
