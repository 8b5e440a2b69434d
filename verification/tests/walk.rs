use trident::indexer::parser::events::Parser;
use trident::indexer::walk::{
    admits, comparable_end, counts_toward_index, indexed_end, indexed_from, settled_window,
    IndexedContract, Walk, MAX_PAGES,
};
use trident::raw::RawEvent;

fn raw(ledger: &str, contract: &str, event_type: &str, successful: bool) -> RawEvent {
    RawEvent {
        event_type: event_type.to_string(),
        ledger: ledger.to_string(),
        ledger_closed_at: "2024-06-01T00:00:00Z".to_string(),
        contract_id: Some(contract.to_string()),
        id: format!("{ledger}-1"),
        paging_token: None,
        tx_hash: "tx".to_string(),
        operation_index: None,
        topic: vec![],
        value: "AAAAAQ==".to_string(),
        in_successful_contract_call: successful,
    }
}

fn contract_event(ledger: u64) -> RawEvent {
    raw(&ledger.to_string(), "CABC", "contract", true)
}

fn list() -> Vec<IndexedContract> {
    vec![
        IndexedContract { contract_id: "CABC".to_string(), index_from: 10 },
        IndexedContract { contract_id: "CDEF".to_string(), index_from: 0 },
    ]
}

#[test]
fn contracts_are_admitted_from_their_ledger_on() {
    let list = list();
    assert_eq!(indexed_from(&list, "CABC"), Some(10));
    assert_eq!(indexed_from(&list, "CXYZ"), None);
    assert!(admits(None, "CXYZ", 0));
    assert!(!admits(Some(list.as_slice()), "CXYZ", 99));
    assert!(!admits(Some(list.as_slice()), "CABC", 9));
    assert!(admits(Some(list.as_slice()), "CABC", 10));
}

#[test]
fn what_the_parser_drops_is_not_counted() {
    for event_type in ["contract", "system", "diagnostic"] {
        for successful in [true, false] {
            for diagnostic in [true, false] {
                let event = raw("7", "CABC", event_type, successful);
                let kept = Parser::new(diagnostic)
                    .parse_event_with_projection(&event)
                    .map(|e| e.is_some())
                    .unwrap_or(true);
                assert_eq!(counts_toward_index(&event, 7, diagnostic, None), kept);
            }
        }
    }
}

#[test]
fn windows_stay_behind_the_tip() {
    assert_eq!(settled_window(1_000, 10, 100).unwrap(), (891, 990));
    assert_eq!(settled_window(50, 10, 100).unwrap(), (1, 40));
    let err = settled_window(10, 10, 100).unwrap_err();
    assert_eq!(
        err.source().chain_text(),
        "chain tip 10 leaves no settled window behind a margin of 10"
    );
}

#[test]
fn windows_end_where_indexing_has_come() {
    assert_eq!(indexed_end(10, 20, 15).unwrap(), 15);
    assert_eq!(indexed_end(10, 20, 25).unwrap(), 20);
    assert!(indexed_end(10, 20, 9).is_err());
}

#[test]
fn a_truncated_walk_ends_before_its_last_ledger() {
    assert_eq!(comparable_end(10, 20, false, 3).unwrap(), 20);
    assert_eq!(comparable_end(10, 20, true, 15).unwrap(), 14);
    assert!(comparable_end(10, 20, true, 10).is_err());
}

#[test]
fn a_walk_counts_events_by_ledger() {
    let mut walk = Walk::new(10, 12);
    let first = walk.next_request().expect("a request");
    assert_eq!(first.start_ledger, Some(10));
    assert_eq!(first.cursor, None);
    assert_eq!(first.limit, 200);
    let page: Vec<RawEvent> =
        (0..200).map(|i| contract_event(if i < 199 { 10 } else { 11 })).collect();
    walk.take_page(&page, false, None).unwrap();
    let second = walk.next_request().expect("another request");
    assert_eq!(second.start_ledger, None);
    assert_eq!(second.cursor.as_deref(), Some("11-1"));
    walk.take_page(&[contract_event(12), contract_event(13)], false, None).unwrap();
    assert!(walk.next_request().is_none());
    let (counts, last_seen, truncated) = walk.finish();
    assert_eq!(counts.get(&10), Some(&199));
    assert_eq!(counts.get(&11), Some(&1));
    assert_eq!(counts.get(&12), Some(&1));
    assert_eq!(counts.get(&13), None);
    assert!(!truncated);
    assert!(last_seen >= 12);
}

#[test]
fn a_page_that_is_not_full_ends_a_walk() {
    let mut walk = Walk::new(10, 12);
    walk.take_page(&[contract_event(10)], false, None).unwrap();
    assert!(walk.next_request().is_none());
    assert!(!walk.finish().2);
}

#[test]
fn a_walk_stops_after_so_many_pages() {
    let mut walk = Walk::new(1, 1_000_000);
    let mut pages = 0;
    let page: Vec<RawEvent> = (0..200).map(|_| contract_event(5)).collect();
    while walk.next_request().is_some() {
        pages += 1;
        walk.take_page(&page, false, None).unwrap();
    }
    assert_eq!(pages, MAX_PAGES);
    let (counts, _, truncated) = walk.finish();
    assert!(truncated);
    assert_eq!(counts.get(&5), Some(&(MAX_PAGES as u64 * 200)));
}

#[test]
fn ledgers_that_are_no_numbers_stop_a_walk() {
    let mut walk = Walk::new(1, 5);
    assert!(walk.take_page(&[raw("x", "CABC", "contract", true)], false, None).is_err());
}
