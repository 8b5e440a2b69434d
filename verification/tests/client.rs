use trident::errors::{ErrorSource, Severity, TridentError};
use trident::indexer::rpc::client::{
    classify_http_status, classify_report, first_hash, rpc_transport_error, status_error,
    unwrap_answer, JsonRpcError, RpcHttpSettings,
};
use trident::indexer::rpc::filters::build_event_filters;
use trident::indexer::rpc::health::RpcHealthScorer;
use trident::indexer::rpc::requests::{
    entries_request, events_request, ledger_request, simulation_request, transaction_request,
};
use trident::json::Json;

const SECOND: u128 = 1_000_000_000;

#[test]
fn statuses_are_told_apart() {
    assert_eq!(classify_http_status(429), "rate_limited");
    assert_eq!(classify_http_status(404), "http_4xx");
    assert_eq!(classify_http_status(503), "http_5xx");
    assert_eq!(classify_http_status(302), "other");
}

#[test]
fn timeouts_are_reported_as_such() {
    let failure = rpc_transport_error("deadline".to_string(), true, "getEvents");
    assert_eq!(failure.error_type, "timeout");
    assert_eq!(failure.error.severity(), Severity::Retryable);
    assert!(failure.error.to_string().contains("getEvents timed out: deadline"));
    let failure = rpc_transport_error("refused".to_string(), false, "getEvents");
    assert_eq!(failure.error.source().chain_text(), "getEvents: refused");
}

#[test]
fn statuses_name_the_endpoint() {
    let failure = status_error("getLedger", "https://a.example", 503, "503 Service Unavailable");
    assert_eq!(failure.error_type, "http_5xx");
    assert_eq!(
        failure.error.source().chain_text(),
        "getLedger: endpoint https://a.example returned HTTP 503 Service Unavailable"
    );
}

#[test]
fn answers_hold_a_result_or_an_error() {
    assert_eq!(unwrap_answer("c", None, Some(7)).unwrap(), 7);
    let reported = JsonRpcError { code: -32600, message: "Cursor is out of range".to_string() };
    let failure = unwrap_answer("getEvents", Some(reported), Some(7)).unwrap_err();
    assert_eq!(failure.error_type, "invalid_cursor");
    assert_eq!(
        failure.error.source().chain_text(),
        "getEvents: RPC error -32600: Cursor is out of range"
    );
    assert!(unwrap_answer::<u8>("c", None, None).is_err());
    assert_eq!(classify_report("a bad cursor"), "invalid_cursor");
    assert_eq!(classify_report("busy"), "rpc_error");
}

fn scorer() -> RpcHealthScorer {
    RpcHealthScorer::new(vec!["a".to_string(), "b".to_string()]).unwrap()
}

#[test]
fn errors_cost_points() {
    let mut s = scorer();
    let error = TridentError::rpc(ErrorSource::msg("getEvents timed out: x".to_string()));
    s.record_error_at("a", &error, 0);
    assert!(s.get_score("a") < 100);
    assert_eq!(s.get_score("b"), 100);
}

#[test]
fn an_endpoint_that_falls_behind_is_stale() {
    let mut s = scorer();
    assert!(!s.record_page_at("a", 100, 0, 0));
    assert!(!s.record_page_at("b", 100, 0, 0));
    assert!(!s.record_page_at("b", 110, 40 * SECOND, 40 * SECOND));
    assert!(s.check_and_record_stale_at("a", 40 * SECOND));
    assert_eq!(s.get_score("a"), 90);
}

#[test]
fn circuits_close_again_after_their_time() {
    let mut s = scorer();
    for _ in 0..5 {
        s.deduct_at("a", 1, 0);
    }
    assert_eq!(s.select_best_endpoint_at(SECOND), "b");
    assert_eq!(format!("{:?}", s.get_circuit_state_at("a", SECOND)), "Open");
    assert_eq!(format!("{:?}", s.get_circuit_state_at("a", 31 * SECOND)), "HalfOpen");
}

#[test]
fn every_endpoint_has_a_score() {
    let mut scores = scorer().get_all_scores();
    scores.sort();
    assert_eq!(scores, vec![("a".to_string(), 100), ("b".to_string(), 100)]);
}

#[test]
fn settings_have_defaults() {
    let settings = RpcHttpSettings::default();
    assert_eq!(settings.connect_timeout, 5_000);
    assert_eq!(settings.request_timeout, 30_000);
}

#[test]
fn the_first_hash_counts() {
    assert_eq!(first_hash(vec!["h1".to_string(), "h2".to_string()]).as_deref(), Some("h1"));
    assert_eq!(first_hash(vec![]), None);
}

fn params(request: &Json) -> &Json {
    request.get("params").expect("parameters")
}

fn text_of<'a>(json: &'a Json, name: &str) -> Option<&'a str> {
    json.get(name).and_then(|v| v.as_str())
}

#[test]
fn event_requests_name_where_they_start() {
    let ids = vec!["CAAA".to_string()];
    let plan = build_event_filters(Some(ids.as_slice()), &[]);
    let first = events_request(Some(7), None, 200, &plan.filters);
    assert_eq!(text_of(&first, "method"), Some("getEvents"));
    assert_eq!(text_of(&first, "jsonrpc"), Some("2.0"));
    assert_eq!(first.get("id"), Some(&Json::Number(1)));
    assert_eq!(params(&first).get("startLedger"), Some(&Json::Number(7)));
    let filters = params(&first).get("filters").and_then(|v| v.as_array()).expect("filters");
    assert_eq!(filters.len(), 1);
    assert_eq!(text_of(&filters[0], "type"), Some("contract"));
    let next = events_request(None, Some("7-1"), 50, &[]);
    assert!(params(&next).get("startLedger").is_none());
    assert_eq!(params(&next).get("filters"), Some(&Json::Array(vec![])));
    let pagination = params(&next).get("pagination").expect("pagination");
    assert_eq!(text_of(pagination, "cursor"), Some("7-1"));
    assert_eq!(pagination.get("limit"), Some(&Json::Number(50)));
}

#[test]
fn other_requests_carry_their_subject() {
    let ledger = ledger_request(9);
    assert_eq!(text_of(&ledger, "method"), Some("getLedgers"));
    assert_eq!(params(&ledger).get("startLedger"), Some(&Json::Number(9)));
    let transaction = transaction_request("abc");
    assert_eq!(text_of(params(&transaction), "hash"), Some("abc"));
    let simulation = simulation_request("AAAA");
    assert_eq!(text_of(params(&simulation), "transaction"), Some("AAAA"));
    assert!(entries_request(&[]).is_none());
    let entries = entries_request(&["k1".to_string()]).expect("a request");
    let keys = params(&entries).get("keys").and_then(|v| v.as_array()).expect("keys");
    assert_eq!(keys[0].as_str(), Some("k1"));
}

#[test]
fn a_ledger_that_is_told_again_grows_stale() {
    let mut s = scorer();
    s.record_success_at("a", Some(100), 0);
    s.record_success_at("a", Some(100), 40 * SECOND);
    s.record_success_at("b", Some(105), 40 * SECOND);
    assert!(s.check_and_record_stale_at("a", 41 * SECOND));
    assert!(!s.check_and_record_stale_at("b", 41 * SECOND));
    s.record_success_at("a", Some(101), 41 * SECOND);
    assert!(!s.check_and_record_stale_at("a", 42 * SECOND));
}

#[test]
fn refused_connections_cost_thirty_points() {
    let mut s = scorer();
    let report = "error sending request: tcp connect error: Connection refused (os error 111)";
    let failure = rpc_transport_error(report.to_string(), false, "getEvents");
    s.record_error_at("a", &failure.error, 0);
    assert_eq!(s.get_score("a"), 70);
    let reported = JsonRpcError { code: -32600, message: "bad".to_string() };
    let failure = unwrap_answer::<u8>("getEvents", Some(reported), None).unwrap_err();
    s.record_error_at("b", &failure.error, 0);
    assert_eq!(s.get_score("b"), 90);
}

#[test]
fn refusals_are_looked_for_last() {
    let mut s = scorer();
    let reported = JsonRpcError { code: -32000, message: "upstream: connection refused".to_string() };
    let failure = unwrap_answer::<u8>("getEvents", Some(reported), None).unwrap_err();
    s.record_error_at("a", &failure.error, 0);
    assert_eq!(s.get_score("a"), 90);
    let report = "Connection refused".to_string();
    let failure = rpc_transport_error(report, true, "getEvents");
    s.record_error_at("b", &failure.error, 0);
    assert_eq!(s.get_score("b"), 80);
    let answered = status_error("getEvents", "http://connection refused", 503, "503 Unavailable");
    s.record_error_at("b", &answered.error, 0);
    assert_eq!(s.get_score("b"), 65);
    let empty = unwrap_answer::<u8>("getEvents", None, None).unwrap_err();
    s.record_error_at("b", &empty.error, 0);
    assert_eq!(s.get_score("b"), 55);
    let at = TridentError::rpc_at(ErrorSource::msg("connection refused".to_string()), 5);
    s.record_error_at("b", &at, 0);
    assert_eq!(s.get_score("b"), 25);
}

#[test]
fn the_other_endpoint_counts_by_its_latest_report() {
    let mut s = scorer();
    s.record_success_at("a", Some(10), 0);
    s.record_success_at("b", Some(20), 5 * SECOND);
    s.record_success_at("b", Some(20), 60 * SECOND);
    assert!(s.check_and_record_stale_at("a", 61 * SECOND));
    assert_eq!(s.get_score("a"), 90);
    assert_eq!(s.get_score("b"), 100);
    assert!(!s.check_and_record_stale_at("b", 61 * SECOND));
    assert!(!s.check_and_record_stale_at("a", 90 * SECOND));
}

#[test]
fn circuits_stay_open_after_each_further_failure() {
    let mut s = scorer();
    for i in 0..4 {
        s.deduct_at("a", 1, i * SECOND);
        assert_eq!(format!("{:?}", s.get_circuit_state_at("a", i * SECOND)), "Closed");
    }
    s.deduct_at("a", 1, 4 * SECOND);
    assert_eq!(format!("{:?}", s.get_circuit_state_at("a", 34 * SECOND)), "HalfOpen");
    s.deduct_at("a", 1, 35 * SECOND);
    assert_eq!(format!("{:?}", s.get_circuit_state_at("a", 64 * SECOND)), "Open");
    assert_eq!(format!("{:?}", s.get_circuit_state_at("a", 65 * SECOND)), "HalfOpen");
    s.record_success_at("a", None, 66 * SECOND);
    assert_eq!(format!("{:?}", s.get_circuit_state_at("a", 66 * SECOND)), "Closed");
}
