use trident::backfill::parser::Parser;
use trident::backfill::queue::{
    after_claim, after_run, BackfillJob, JobClose, Outcome, QueueAction, Tally,
};
use trident::backfill::run::{
    chunks, event_action, requested_range, select, EventAction, RangeRun,
};
use trident::errors::{ErrorSource, TridentError};
use trident::json::Json;
use trident::raw::RawEvent;

fn raw(ledger: &str, contract: &str) -> RawEvent {
    RawEvent {
        event_type: "contract".to_string(),
        ledger: ledger.to_string(),
        ledger_closed_at: "2024-06-01T00:00:00Z".to_string(),
        contract_id: Some(contract.to_string()),
        id: format!("{ledger}-1"),
        paging_token: Some(format!("token-{ledger}")),
        tx_hash: "tx".to_string(),
        operation_index: None,
        topic: vec![],
        value: "AAAAAQ==".to_string(),
        in_successful_contract_call: true,
    }
}

#[test]
fn ranges_need_both_ends_in_order() {
    assert_eq!(requested_range(Some(1), Some(5)), Ok((1, 5)));
    assert_eq!(
        requested_range(None, Some(5)),
        Err("--from-ledger and --to-ledger are required unless --from-queue is set")
    );
    assert_eq!(requested_range(Some(6), Some(5)), Err("--to-ledger must be >= --from-ledger"));
}

#[test]
fn chunks_cover_a_range_without_overlap() {
    assert_eq!(chunks(1, 10, 3), vec![(1, 4), (5, 8), (9, 10)]);
    assert_eq!(chunks(5, 5, 4), vec![(5, 5)]);
    for workers in 1..9 {
        let parts = chunks(3, 40, workers);
        assert_eq!(parts[0].0, 3);
        assert_eq!(parts[parts.len() - 1].1, 40);
        for pair in parts.windows(2) {
            assert_eq!(pair[0].1 + 1, pair[1].0);
        }
    }
}

#[test]
fn a_run_follows_its_pages() {
    let mut run = RangeRun::new(10, 20, None);
    assert_eq!(run.next_request(), Some((Some(10), None)));
    let page: Vec<RawEvent> = (0..200).map(|_| raw("12", "CABC")).collect();
    assert!(run.page_fits(&page));
    let first = run.take_page(&page);
    let (seq, cursor) = run.next_request().expect("another request");
    assert_eq!(seq, None);
    assert_eq!(first, 3);
    assert_eq!(cursor.as_deref(), Some("token-12"));
    run.take_page(&[]);
    assert_eq!(run.next_request(), None);
}

#[test]
fn a_run_gives_up_after_so_many_failures() {
    let mut run = RangeRun::new(10, 20, Some(2));
    assert!(!run.take_failure());
    assert!(run.take_failure());
    let mut patient = RangeRun::new(10, 20, None);
    assert!(!patient.take_failure());
    assert!(!patient.take_failure());
    assert_eq!(patient.next_request(), Some((Some(10), None)));
}

#[test]
fn pages_at_the_end_of_all_ledgers_do_not_fit() {
    let run = RangeRun::new(10, 20, None);
    assert!(!run.page_fits(&[raw("18446744073709551615", "CABC")]));
}

#[test]
fn only_the_wanted_contract_is_selected() {
    let parser = Parser::new(false);
    let event = raw("12", "CABC");
    assert!(select(&parser, &event, None, 10, 20).unwrap().is_some());
    assert!(select(&parser, &event, Some("CABC"), 10, 20).unwrap().is_some());
    assert!(select(&parser, &event, Some("CDEF"), 10, 20).unwrap().is_none());
}

#[test]
fn only_ledgers_of_the_range_are_selected() {
    let parser = Parser::new(false);
    for (ledger, wanted) in [("9", false), ("10", true), ("20", true), ("21", false)] {
        let event = select(&parser, &raw(ledger, "CABC"), None, 10, 20).unwrap();
        assert_eq!(event.is_some(), wanted, "ledger {ledger}");
    }
}

#[test]
fn dry_runs_only_show_events() {
    let parser = Parser::new(false);
    let chosen = || select(&parser, &raw("12", "CABC"), None, 10, 20);
    match event_action(chosen(), true) {
        EventAction::Show(event) => assert_eq!(event.ledger_sequence, 12),
        other => panic!("{other:?}"),
    }
    match event_action(chosen(), false) {
        EventAction::Insert(event) => assert_eq!(event.contract_id, "CABC"),
        other => panic!("{other:?}"),
    }
    let outside = select(&parser, &raw("21", "CABC"), None, 10, 20);
    assert!(matches!(event_action(outside, false), EventAction::Pass));
    let broken = select(&parser, &raw("x", "CABC"), None, 10, 20);
    assert!(matches!(event_action(broken, true), EventAction::Warn(_)));
    assert_eq!(Outcome::of_insert(true), Outcome::Stored);
    assert_eq!(Outcome::of_insert(false), Outcome::Refused);
}

#[test]
fn a_run_goes_on_while_the_last_ledger_does() {
    let mut run = RangeRun::new(10, 20, None);
    assert_eq!(run.range(), (10, 20));
    let page: Vec<RawEvent> = (0..200).map(|_| raw("20", "CABC")).collect();
    assert_eq!(run.take_page(&page), 11);
    assert_eq!(run.next_request(), Some((None, Some("token-20".to_string()))));
    let beyond: Vec<RawEvent> = (0..200).map(|_| raw("21", "CABC")).collect();
    run.take_page(&beyond);
    assert_eq!(run.next_request(), None);
    assert_eq!(RangeRun::new(20, 10, None).next_request(), None);
}

#[test]
fn backfilled_events_are_normalised() {
    let event = Parser::new(false).parse_event(&raw("12", "CABC")).unwrap().expect("an event");
    assert_eq!(event.ledger_sequence, 12);
    assert_eq!(event.contract_id, "CABC");
    assert_eq!(event.event_index, 1);
    let mut odd = raw("12", "CABC");
    odd.value = "garbage!!!".to_string();
    assert!(Parser::new(false).parse_event(&odd).is_err());
}

#[test]
fn queue_workers_wait_where_there_is_no_job() {
    assert!(matches!(after_claim(Ok(None)), QueueAction::Wait));
    let down = TridentError::storage(ErrorSource::msg("down".to_string()));
    assert!(matches!(after_claim(Err(down)), QueueAction::Wait));
    let job = BackfillJob::from_row([1; 16], 10, 20, "testnet".to_string());
    assert!(matches!(after_claim(Ok(Some(job))), QueueAction::Backfill(j) if j.to_ledger == 20));
}

#[test]
fn queued_ranges_give_up_after_ten_failures() {
    let job = BackfillJob::from_row([1; 16], 10, 20, "testnet".to_string());
    let mut run = job.run();
    assert_eq!(run.next_request(), Some((Some(10), None)));
    for _ in 0..9 {
        assert!(!run.take_failure());
    }
    assert!(run.take_failure());
    let gone = TridentError::rpc(ErrorSource::msg("gone".to_string()));
    assert!(matches!(after_run(&Err(gone)), JobClose::Fail(text) if text == "RPC error: gone"));
    assert!(matches!(after_run(&Ok(())), JobClose::Complete));
}

#[test]
fn dry_runs_show_the_first_ten_events() {
    let mut tally = Tally::default();
    let shown = (0..15).filter(|_| tally.count(Outcome::Shown)).count();
    assert_eq!(shown, 10);
    assert!(!tally.count(Outcome::Stored));
    assert!(!tally.count(Outcome::Refused));
    let summary = tally.summary(11, 3);
    assert_eq!(summary.get("events_indexed"), Some(&Json::Number(16)));
    assert_eq!(summary.get("duplicates_skipped"), Some(&Json::Number(1)));
    assert_eq!(summary.get("ledgers_processed"), Some(&Json::Number(11)));
    assert_eq!(summary.get("duration_seconds"), Some(&Json::Number(3)));
}
