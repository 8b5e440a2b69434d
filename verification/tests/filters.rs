use base64::engine::general_purpose::STANDARD;
use base64::Engine;
use trident::indexer::rpc::filters::{
    build_event_filters, parse_topic_filters, MAX_CONTRACT_IDS_PER_FILTER, MAX_FILTERABLE_CONTRACTS,
    MAX_FILTERS_PER_REQUEST,
};

fn allowlist(ids: &[&str]) -> Vec<String> {
    ids.iter().map(|s| s.to_string()).collect()
}

#[test]
fn empty_allowlist_yields_index_all() {
    let plan = build_event_filters(None, &[]);
    assert!(plan.filters.is_empty());
    assert!(!plan.degraded);
}

#[test]
fn empty_set_yields_index_all() {
    let set: Vec<String> = Vec::new();
    let plan = build_event_filters(Some(set.as_slice()), &[]);
    assert!(plan.filters.is_empty());
    assert!(!plan.degraded);
}

#[test]
fn single_contract_produces_one_filter() {
    let set = allowlist(&["CAAA"]);
    let plan = build_event_filters(Some(set.as_slice()), &[]);
    assert_eq!(plan.filters.len(), 1);
    assert_eq!(plan.filters[0].contract_ids, vec!["CAAA".to_string()]);
    assert_eq!(plan.filters[0].event_type, "contract");
}

#[test]
fn contract_ids_are_sorted_for_deterministic_requests() {
    let set = allowlist(&["CCCC", "CAAA", "CBBB"]);
    let plan = build_event_filters(Some(set.as_slice()), &[]);
    assert_eq!(plan.filters[0].contract_ids, vec!["CAAA", "CBBB", "CCCC"]);
}

#[test]
fn allowlist_at_the_per_filter_limit_stays_one_filter() {
    let set = allowlist(&["C1", "C2", "C3", "C4", "C5"]);
    let plan = build_event_filters(Some(set.as_slice()), &[]);
    assert_eq!(plan.filters.len(), 1);
    assert_eq!(plan.filters[0].contract_ids.len(), 5);
}

#[test]
fn allowlist_over_the_per_filter_limit_is_sharded() {
    let set = allowlist(&["C1", "C2", "C3", "C4", "C5", "C6"]);
    let plan = build_event_filters(Some(set.as_slice()), &[]);
    assert_eq!(plan.filters.len(), 2, "6 contracts shard into 2 filters");
    assert_eq!(plan.filters[0].contract_ids.len(), 5);
    assert_eq!(plan.filters[1].contract_ids, vec!["C6".to_string()]);
    assert!(!plan.degraded);
}

#[test]
fn allowlist_at_the_request_limit_fills_every_filter() {
    let ids: Vec<String> = (0..MAX_FILTERABLE_CONTRACTS)
        .map(|i| format!("C{i:03}"))
        .collect();
    let set = ids;
    let plan = build_event_filters(Some(set.as_slice()), &[]);
    assert_eq!(plan.filters.len(), MAX_FILTERS_PER_REQUEST);
    assert!(plan
        .filters
        .iter()
        .all(|f| f.contract_ids.len() == MAX_CONTRACT_IDS_PER_FILTER));
    assert!(!plan.degraded);
}

#[test]
fn allowlist_beyond_the_request_limit_degrades_to_index_all() {
    let ids: Vec<String> = (0..MAX_FILTERABLE_CONTRACTS + 1)
        .map(|i| format!("C{i:03}"))
        .collect();
    let set = ids;
    let plan = build_event_filters(Some(set.as_slice()), &[]);
    assert!(plan.filters.is_empty());
    assert!(plan.degraded, "oversized allowlist must flag degradation");
}

#[test]
fn topic_patterns_are_attached_to_every_shard() {
    let set = allowlist(&["C1", "C2", "C3", "C4", "C5", "C6"]);
    let topics = parse_topic_filters("transfer/*/*").unwrap();
    let plan = build_event_filters(Some(set.as_slice()), &topics);
    assert_eq!(plan.filters.len(), 2);
    assert!(plan.filters.iter().all(|f| f.topics == topics));
}

#[test]
fn serialised_filter_matches_the_rpc_shape() {
    let set = allowlist(&["CAAA"]);
    let plan = build_event_filters(Some(set.as_slice()), &[]);
    let json = plan.filters[0].to_json();
    assert_eq!(json.get("type").and_then(|v| v.as_str()), Some("contract"));
    let ids = json.get("contractIds").and_then(|v| v.as_array()).expect("contract ids");
    assert_eq!(ids[0].as_str(), Some("CAAA"));
    assert!(
        json.get("topics").is_none(),
        "an empty topic list must be omitted, not sent as []"
    );
}

#[test]
fn empty_topic_spec_yields_no_patterns() {
    assert!(parse_topic_filters("").unwrap().is_empty());
    assert!(parse_topic_filters("  ,  ").unwrap().is_empty());
}

#[test]
fn symbol_segments_are_xdr_base64_encoded() {
    // A symbol encodes as: discriminant (SCV_SYMBOL = 15), byte length, then
    // the body zero-padded to a 4-byte boundary. "transfer" is 8 bytes, so
    // it lands exactly on the boundary and carries no padding.
    let patterns = parse_topic_filters("transfer").unwrap();
    assert_eq!(patterns.len(), 1);
    let encoded = &patterns[0][0];
    assert_ne!(encoded, "transfer", "segment must be XDR-encoded");

    let bytes = STANDARD.decode(encoded).expect("valid base64");
    assert_eq!(&bytes[0..4], &[0, 0, 0, 15], "SCV_SYMBOL discriminant");
    assert_eq!(&bytes[4..8], &[0, 0, 0, 8], "symbol length");
    assert_eq!(&bytes[8..], b"transfer", "symbol body");
}

#[test]
fn symbol_segments_are_padded_to_a_four_byte_boundary() {
    // "mint" is 4 bytes (no padding); "approve" is 7 and must be padded to 8.
    let patterns = parse_topic_filters("mint,approve").unwrap();

    let mint = STANDARD.decode(&patterns[0][0]).expect("valid base64");
    assert_eq!(&mint[4..8], &[0, 0, 0, 4], "symbol length");
    assert_eq!(&mint[8..], b"mint", "4-byte body needs no padding");

    let approve = STANDARD.decode(&patterns[1][0]).expect("valid base64");
    assert_eq!(&approve[4..8], &[0, 0, 0, 7], "length is the unpadded size");
    assert_eq!(&approve[8..], b"approve\0", "7-byte body padded to 8");
}

#[test]
fn wildcard_segments_pass_through_unencoded() {
    let patterns = parse_topic_filters("*/**").unwrap();
    assert_eq!(patterns[0], vec!["*".to_string(), "**".to_string()]);
}

#[test]
fn multiple_patterns_split_on_comma() {
    let patterns = parse_topic_filters("transfer/*, mint/*").unwrap();
    assert_eq!(patterns.len(), 2);
    assert_eq!(patterns[0].len(), 2);
    assert_eq!(patterns[1].len(), 2);
}

#[test]
fn empty_segment_is_rejected() {
    assert!(parse_topic_filters("transfer//to").is_err());
}

#[test]
fn pattern_longer_than_four_segments_is_rejected() {
    assert!(parse_topic_filters("a/b/c/d/e").is_err());
}

#[test]
fn topics_are_sent_where_there_are_any() {
    let set = allowlist(&["CAAA"]);
    let topics = parse_topic_filters("*/**,*").unwrap();
    let plan = build_event_filters(Some(set.as_slice()), &topics);
    let json = plan.filters[0].to_json();
    let patterns = json.get("topics").and_then(|v| v.as_array()).expect("topics");
    assert_eq!(patterns.len(), 2);
    let first = patterns[0].as_array().expect("segments");
    assert_eq!(first[0].as_str(), Some("*"));
    assert_eq!(first[1].as_str(), Some("**"));
}

#[test]
fn repeated_contracts_are_named_once() {
    let set = allowlist(&["CBBB", "CAAA", "CBBB"]);
    let plan = build_event_filters(Some(set.as_slice()), &[]);
    assert_eq!(plan.filters[0].contract_ids, vec!["CAAA", "CBBB"]);
}

#[test]
fn rejected_patterns_say_why() {
    assert_eq!(
        parse_topic_filters("a/b/c/d/e").unwrap_err(),
        "topic pattern \"a/b/c/d/e\" has 5 segments; the RPC allows at most 4"
    );
}

#[test]
fn the_order_of_an_allowlist_does_not_matter() {
    let ids = ["C3", "C1", "C6", "C2", "C5", "C4"];
    let mut turned = ids;
    turned.reverse();
    let a = build_event_filters(Some(&allowlist(&ids)), &[]);
    let b = build_event_filters(Some(&allowlist(&turned)), &[]);
    assert_eq!(a.filters.len(), 2);
    assert_eq!(a.filters[0].contract_ids, vec!["C1", "C2", "C3", "C4", "C5"]);
    assert_eq!(a.filters[1].contract_ids, vec!["C6"]);
    for (one, other) in a.filters.iter().zip(b.filters.iter()) {
        assert_eq!(one.contract_ids, other.contract_ids);
    }
}
