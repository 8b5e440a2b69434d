use trident::api::config::{db_pool_size, Config};
use trident::api::events::{
    cursor_position, event_not_found, json_texts, list_response, plan_get, plan_list,
    resolve_network, row_to_event, validate_get_event, validate_list_events, Code, EventRow,
    GetEventRequest, ListEventsRequest, Status,
};
use trident::api::stream::{
    deliver, entry_field, stream_channel_buffer, subscribe, take_entries, validate_start_id,
    StreamEntry, StreamEventsRequest, StreamField, StreamSubscription,
};
use trident::indexer::db::outbox::stream_fields;
use trident::json::Json;
use trident::timestamp::Timestamp;
use trident::types::{EventType, SorobanEvent};

fn vars(pairs: &[(&str, &str)]) -> Vec<(String, String)> {
    pairs.iter().map(|(k, v)| (k.to_string(), v.to_string())).collect()
}

#[test]
fn missing_both_required_vars_lists_both() {
    let err = Config::from_env(&vars(&[])).unwrap_err();
    let msg = err.to_string();
    assert!(msg.contains("DATABASE_URL"));
    assert!(msg.contains("GRPC_ADDR"));
}

#[test]
fn missing_database_url_only() {
    let err = Config::from_env(&vars(&[("GRPC_ADDR", "0.0.0.0:50051")])).unwrap_err();
    let msg = err.to_string();
    assert!(msg.contains("DATABASE_URL"));
    assert!(!msg.contains("GRPC_ADDR"));
}

#[test]
fn missing_grpc_addr_only() {
    let err =
        Config::from_env(&vars(&[("DATABASE_URL", "postgres://localhost/test")])).unwrap_err();
    let msg = err.to_string();
    assert!(msg.contains("GRPC_ADDR"));
    assert!(!msg.contains("DATABASE_URL"));
}

#[test]
fn all_vars_set_returns_config() {
    let cfg = Config::from_env(&vars(&[
        ("DATABASE_URL", "postgres://localhost/trident"),
        ("GRPC_ADDR", "0.0.0.0:50051"),
    ]))
    .unwrap();
    assert_eq!(cfg.database_url, "postgres://localhost/trident");
    assert_eq!(cfg.grpc_addr, "0.0.0.0:50051");
    assert!(cfg.mtls.is_none());
}

#[test]
fn mtls_disabled_by_default() {
    let cfg = Config::from_env(&vars(&[
        ("DATABASE_URL", "postgres://localhost/trident"),
        ("GRPC_ADDR", "0.0.0.0:50051"),
    ]))
    .unwrap();
    assert!(cfg.mtls.is_none());
}

#[test]
fn mtls_enabled_populates_cert_paths() {
    let cfg = Config::from_env(&vars(&[
        ("DATABASE_URL", "postgres://localhost/trident"),
        ("GRPC_ADDR", "0.0.0.0:50051"),
        ("GRPC_MTLS_ENABLED", "true"),
        ("GRPC_MTLS_CA_CERT", "/certs/ca.crt"),
        ("GRPC_MTLS_SERVER_CERT", "/certs/server.crt"),
        ("GRPC_MTLS_SERVER_KEY", "/certs/server.key"),
    ]))
    .unwrap();
    let mtls = cfg.mtls.expect("mtls config should be present");
    assert_eq!(mtls.ca_cert_path, "/certs/ca.crt");
    assert_eq!(mtls.server_cert_path, "/certs/server.crt");
    assert_eq!(mtls.server_key_path, "/certs/server.key");
}

#[test]
fn mtls_enabled_without_cert_paths_errors() {
    let err = Config::from_env(&vars(&[
        ("DATABASE_URL", "postgres://localhost/trident"),
        ("GRPC_ADDR", "0.0.0.0:50051"),
        ("GRPC_MTLS_ENABLED", "true"),
    ]))
    .unwrap_err();
    let msg = err.to_string();
    assert!(msg.contains("GRPC_MTLS_CA_CERT"));
    assert!(msg.contains("GRPC_MTLS_SERVER_CERT"));
    assert!(msg.contains("GRPC_MTLS_SERVER_KEY"));
}

#[test]
fn pool_sizes_have_to_be_positive_numbers() {
    assert_eq!(db_pool_size(None), 10);
    assert_eq!(db_pool_size(Some("0")), 10);
    assert_eq!(db_pool_size(Some("many")), 10);
    assert_eq!(db_pool_size(Some("25")), 25);
    assert_eq!(stream_channel_buffer(Some("7")), 7);
    assert_eq!(stream_channel_buffer(None), 128);
}

fn list_request() -> ListEventsRequest {
    ListEventsRequest {
        contract_id: String::new(),
        topic_0: String::new(),
        topic_1: String::new(),
        network: String::new(),
        ledger_from: 0,
        ledger_to: 0,
        limit: 0,
        cursor: String::new(),
    }
}

#[test]
fn limits_are_brought_into_range() {
    let mut req = list_request();
    assert_eq!(plan_list(&req).unwrap().limit, 1);
    req.limit = 50;
    assert_eq!(plan_list(&req).unwrap().limit, 50);
    req.limit = 5_000;
    assert_eq!(plan_list(&req).unwrap().limit, 200);
}

#[test]
fn overlong_fields_are_refused_by_name() {
    let mut req = list_request();
    req.contract_id = "C".repeat(257);
    let err = validate_list_events(&req).unwrap_err();
    assert_eq!(err.code, Code::InvalidArgument);
    assert_eq!(err.message, "contract_id must be at most 256 characters");
    req.contract_id = "C".repeat(256);
    assert!(validate_list_events(&req).is_ok());
    req.topic_0 = "t".repeat(129);
    assert_eq!(
        validate_list_events(&req).unwrap_err().message,
        "topic_0 must be at most 128 characters"
    );
}

#[test]
fn requests_without_a_network_mean_testnet() {
    assert_eq!(resolve_network(""), "testnet");
    assert_eq!(resolve_network("mainnet"), "mainnet");
    assert_eq!(plan_list(&list_request()).unwrap().network, "testnet");
}

#[test]
fn cursors_have_to_be_ids() {
    let mut req = list_request();
    req.cursor = "nonsense".to_string();
    assert_eq!(plan_list(&req).unwrap_err().code, Code::InvalidArgument);
    req.cursor = "6ba7b810-9dad-11d1-80b4-00c04fd430c8".to_string();
    assert_eq!(
        plan_list(&req).unwrap().cursor,
        Some([
            0x6b, 0xa7, 0xb8, 0x10, 0x9d, 0xad, 0x11, 0xd1, 0x80, 0xb4, 0x00, 0xc0, 0x4f, 0xd4,
            0x30, 0xc8
        ])
    );
}

#[test]
fn unknown_cursors_are_refused() {
    assert_eq!(cursor_position(Some((7, 1))).unwrap(), (7, 1));
    let err = cursor_position(None).unwrap_err();
    assert_eq!(err.message, "cursor references unknown event");
}

#[test]
fn events_are_asked_for_by_id() {
    let req = GetEventRequest { id: String::new(), network: String::new() };
    assert_eq!(validate_get_event(&req).unwrap_err().message, "id is required");
    let req = GetEventRequest { id: "x".to_string(), network: String::new() };
    assert_eq!(plan_get(&req).unwrap_err().code, Code::InvalidArgument);
    let req = GetEventRequest {
        id: "00000000-0000-0000-0000-000000000001".to_string(),
        network: "mainnet".to_string(),
    };
    let (id, network) = plan_get(&req).unwrap();
    assert_eq!(id[15], 1);
    assert_eq!(network, "mainnet");
    let missing = event_not_found(id);
    assert_eq!(missing.code, Code::NotFound);
    assert_eq!(missing.message, "event 00000000-0000-0000-0000-000000000001 not found");
}

#[test]
fn database_faults_are_not_told() {
    let status = Status::unavailable();
    assert_eq!(status.code, Code::Unavailable);
    assert_eq!(status.message, "database temporarily unavailable");
}

fn row(index: u8) -> EventRow {
    EventRow {
        id: [index; 16],
        contract_id: "CABC".to_string(),
        ledger_sequence: 42,
        ledger_timestamp: Timestamp { seconds: 1_704_067_200, nanos: 0 },
        transaction_hash: "txhash".to_string(),
        event_index: index as i32,
        event_type: "contract".to_string(),
        topics: Json::Array(vec![Json::String("transfer".to_string())]),
        data: "{}".to_string(),
        created_at: Timestamp { seconds: 1_704_067_201, nanos: 500_000_000 },
    }
}

#[test]
fn rows_become_events() {
    let event = row_to_event(row(3)).expect("an event");
    assert_eq!(event.id, "03030303-0303-0303-0303-030303030303");
    assert_eq!(event.ledger_timestamp, "2024-01-01T00:00:00+00:00");
    assert_eq!(event.created_at, "2024-01-01T00:00:01.500+00:00");
    assert_eq!(event.topics, vec!["transfer".to_string()]);
    assert_eq!(event.event_index, 3);
    assert_eq!(event.ledger_sequence, 42);
}

#[test]
fn times_that_cannot_be_shown_give_no_event() {
    let mut far = row(1);
    far.created_at = Timestamp { seconds: i64::MAX, nanos: 0 };
    assert!(row_to_event(far).is_none());
}

#[test]
fn only_arrays_of_texts_are_topics() {
    assert!(json_texts(&Json::Null).is_empty());
    let mixed = Json::Array(vec![Json::Number(1), Json::String("a".to_string())]);
    assert!(json_texts(&mixed).is_empty());
    let texts = Json::Array(vec![Json::String("a".to_string()), Json::String("b".to_string())]);
    assert_eq!(json_texts(&texts), vec!["a".to_string(), "b".to_string()]);
}

#[test]
fn full_pages_name_where_to_resume() {
    let page = list_response(vec![row(1), row(2)], 2).expect("a page");
    assert!(page.has_more);
    assert_eq!(page.next_cursor, "02020202-0202-0202-0202-020202020202");
    let mut req = list_request();
    req.cursor = page.next_cursor;
    assert_eq!(plan_list(&req).unwrap().cursor, Some([2; 16]));
    let page = list_response(vec![row(1)], 2).expect("a page");
    assert!(!page.has_more);
    assert_eq!(page.next_cursor, "");
}

#[test]
fn empty_start_id_means_live_tail() {
    assert_eq!(validate_start_id("").unwrap(), "$");
}

#[test]
fn explicit_stream_ids_are_accepted() {
    assert_eq!(validate_start_id("$").unwrap(), "$");
    assert_eq!(validate_start_id("0").unwrap(), "0");
    assert_eq!(validate_start_id("1700000000000-0").unwrap(), "1700000000000-0");
}

#[test]
fn malformed_start_ids_are_rejected() {
    for bad in ["abc", "123", "1-2-3", "-1", "1-", "1700000000000-x"] {
        let err =
            validate_start_id(bad).expect_err(&format!("{bad:?} should have been rejected"));
        assert_eq!(err.code, Code::InvalidArgument);
    }
}

fn stream_request(contract_id: &str, topic_0: &str, start_id: &str) -> StreamEventsRequest {
    StreamEventsRequest {
        contract_id: contract_id.to_string(),
        topic_0: topic_0.to_string(),
        start_id: start_id.to_string(),
    }
}

#[test]
fn subscriptions_need_a_contract() {
    let err = subscribe(stream_request("", "", "")).unwrap_err();
    assert_eq!(err.message, "contract_id is required");
    assert!(subscribe(stream_request("CABC", "", "later")).is_err());
    let sub = subscribe(stream_request("CABC", "", "")).unwrap();
    assert_eq!(sub.contract_id, "CABC");
    assert_eq!(sub.topic_0, None);
    assert_eq!(sub.start_id, "$");
}

fn published(id: &str, event: &SorobanEvent) -> StreamEntry {
    let fields = stream_fields(event, "{\"amount\":10}", Some("00000000-0000-0000-0000-000000000001"));
    StreamEntry {
        id: id.to_string(),
        fields: fields
            .into_iter()
            .map(|(name, value)| StreamField {
                name: name.to_string(),
                data: Some(value.into_bytes()),
            })
            .collect(),
    }
}

fn sample_event(contract_id: &str) -> SorobanEvent {
    SorobanEvent {
        contract_id: contract_id.to_string(),
        ledger_sequence: 42,
        ledger_timestamp: "2024-01-01T00:00:00Z".to_string(),
        transaction_hash: "txhash".to_string(),
        event_index: 3,
        event_type: EventType::Contract,
        topics: vec!["transfer".to_string(), "G\"1\"".to_string()],
        data: Json::Null,
    }
}

fn subscription(topic_0: Option<&str>) -> StreamSubscription {
    StreamSubscription {
        contract_id: "CABC".to_string(),
        topic_0: topic_0.map(str::to_string),
        start_id: "$".to_string(),
    }
}

#[test]
fn published_events_reach_their_subscribers() {
    let entry = published("1-0", &sample_event("CABC"));
    let event = deliver(&subscription(Some("transfer")), &entry).expect("an event");
    assert_eq!(event.contract_id, "CABC");
    assert_eq!(event.ledger_sequence, 42);
    assert_eq!(event.event_index, 3);
    assert_eq!(event.topics, vec!["transfer".to_string(), "G\"1\"".to_string()]);
    assert_eq!(event.data, "{\"amount\":10}");
    assert_eq!(event.transaction_hash, "txhash");
    assert!(deliver(&subscription(Some("mint")), &entry).is_none());
    assert!(deliver(&subscription(None), &published("1-0", &sample_event("COTHER"))).is_none());
}

#[test]
fn fields_without_text_are_empty() {
    let entry = StreamEntry {
        id: "1-0".to_string(),
        fields: vec![
            StreamField { name: "a".to_string(), data: None },
            StreamField { name: "b".to_string(), data: Some(vec![0xff]) },
            StreamField { name: "c".to_string(), data: Some(b"text".to_vec()) },
        ],
    };
    assert_eq!(entry_field(&entry, "a"), "");
    assert_eq!(entry_field(&entry, "b"), "");
    assert_eq!(entry_field(&entry, "c"), "text");
    assert_eq!(entry_field(&entry, "d"), "");
}

#[test]
fn reading_moves_behind_every_entry() {
    let entries = vec![
        published("1-0", &sample_event("COTHER")),
        published("2-0", &sample_event("CABC")),
        published("3-0", &sample_event("COTHER")),
    ];
    let (last, events) = take_entries(&subscription(None), "0".to_string(), &entries);
    assert_eq!(last, "3-0");
    assert_eq!(events.len(), 1);
    let (last, events) = take_entries(&subscription(None), "3-0".to_string(), &[]);
    assert_eq!(last, "3-0");
    assert!(events.is_empty());
}
