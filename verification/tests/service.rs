use trident::errors::ErrorSource;
use trident::ids::event_uuid;
use trident::indexer::config::Config;
use trident::indexer::db::columns::{
    EventColumns, InvocationMetricRow, MetricColumns, SnapshotColumns, StorageSnapshotRow,
    TokenColumns, TokenProjection,
};
use trident::indexer::db::commit::{
    batches, commit_steps, metadata_columns, CommitStep, LedgerMeta, PageShape,
    TokenMetadataResolution,
};
use trident::indexer::db::outbox::{stream_fields, Delivery, RelayConfig, RelayPass, STREAM_KEY};
use trident::indexer::parser::invocation_metrics::metrics_from;
use trident::indexer::parser::token_events::{TokenEvent, TokenEventType};
use trident::indexer::probes::{
    dead_letter_answer, dead_letter_entries, ends_headers, healthz, not_found, readyz,
    request_path, route, write_answer, DeadLetterRow, Route,
};
use trident::json::Json;
use trident::timestamp::{ledger_time, time_text};
use trident::types::{EventType, Network, SorobanEvent};

fn event(index: u32, closed_at: &str) -> SorobanEvent {
    SorobanEvent {
        contract_id: "CABC".to_string(),
        ledger_sequence: 42,
        ledger_timestamp: closed_at.to_string(),
        transaction_hash: "txhash".to_string(),
        event_index: index,
        event_type: EventType::Contract,
        topics: vec!["transfer".to_string()],
        data: Json::Number(7),
    }
}

#[test]
fn columns_hold_the_rows_in_order() {
    let rows = vec![event(0, "2024-01-01T00:00:00Z"), event(1, "2024-01-01T00:00:05Z")];
    let columns = EventColumns::build(&rows).unwrap();
    assert_eq!(columns.ids, vec![event_uuid("CABC", 42, 0), event_uuid("CABC", 42, 1)]);
    assert_eq!(columns.event_indexes, vec![0, 1]);
    assert_eq!(columns.ledger_sequences, vec![42, 42]);
    assert_eq!(columns.ledger_timestamps[1].seconds, 1_704_067_205);
    assert_eq!(columns.event_types, vec!["contract", "contract"]);
    assert_eq!(columns.topics[0], Json::Array(vec![Json::String("transfer".to_string())]));
    assert_eq!(columns.data[1], &Json::Number(7));
}

#[test]
fn a_time_that_cannot_be_read_spoils_the_batch() {
    let rows = vec![event(0, "2024-01-01T00:00:00Z"), event(1, "yesterday")];
    let err = EventColumns::build(&rows).unwrap_err();
    assert!(err.to_string().starts_with("Storage error"));
}

#[test]
fn token_columns_follow_their_events() {
    let e = event(3, "2024-01-01T00:00:00Z");
    let token = TokenEvent {
        event_type: TokenEventType::Burn,
        from: Some("G1".to_string()),
        to: None,
        spender: None,
        admin: None,
        amount: Some("5".to_string()),
        expiration_ledger: None,
        asset_code: None,
        asset_issuer: None,
    };
    let columns = TokenColumns::build(&[TokenProjection { event: &e, token: &token }]).unwrap();
    assert_eq!(columns.event_ids, vec![event_uuid("CABC", 42, 3)]);
    assert_eq!(columns.event_types, vec!["burn"]);
    assert_eq!(columns.from_addresses, vec![Some("G1".to_string())]);
    assert_eq!(columns.to_addresses, vec![None]);
    assert_eq!(columns.amounts, vec![Some("5".to_string())]);
}

#[test]
fn metric_and_snapshot_columns_hold_their_rows() {
    let metrics = metrics_from(9, None);
    let columns = MetricColumns::build(&[InvocationMetricRow {
        contract_id: "CABC",
        transaction_hash: "tx",
        ledger_sequence: 7,
        ledger_timestamp: "2024-01-01T00:00:00Z",
        metrics: &metrics,
    }])
    .unwrap();
    assert_eq!(columns.fee_charged, vec![9]);
    assert_eq!(columns.resource_fee, vec![None]);
    assert_eq!(columns.ledger_sequences, vec![7]);
    let key = Json::String("k".to_string());
    let row = StorageSnapshotRow {
        contract_id: "CABC",
        storage_key: "key",
        key_json: &key,
        value_json: None,
        ledger_sequence: 8,
    };
    let columns = SnapshotColumns::build(std::slice::from_ref(&row), "testnet");
    assert_eq!(columns.networks, vec!["testnet"]);
    assert_eq!(columns.storage_keys, vec!["key"]);
    assert_eq!(columns.ledger_sequences, vec![8]);
    assert!(columns.value_jsons[0].is_none());
}

#[test]
fn batches_cover_the_rows_once() {
    assert_eq!(batches(25, 10), vec![(0, 10), (10, 20), (20, 25)]);
    assert_eq!(batches(0, 10), vec![]);
    assert_eq!(batches(3, 0), vec![(0, 1), (1, 2), (2, 3)]);
}

#[test]
fn the_cursor_moves_behind_the_rows() {
    let steps = commit_steps(PageShape {
        events: 3,
        token_events: 1,
        invocation_metrics: 0,
        storage_snapshots: 0,
        cursor: Some(900),
        has_ledger: true,
        batch_size: 2,
    });
    assert_eq!(
        steps,
        vec![
            CommitStep::Events { from: 0, to: 2 },
            CommitStep::Outbox { from: 0, to: 2 },
            CommitStep::Events { from: 2, to: 3 },
            CommitStep::Outbox { from: 2, to: 3 },
            CommitStep::TokenEvents { from: 0, to: 1 },
            CommitStep::Cursor { value: 900 },
            CommitStep::Ledger,
        ]
    );
}

#[test]
fn ledger_rows_carry_the_time() {
    let meta = LedgerMeta {
        sequence: 900,
        hash: "h",
        timestamp: "2024-01-01T00:00:00Z",
        event_count: 2,
    };
    let row = meta.row().unwrap();
    assert_eq!(row.ledger_sequence, 900);
    assert_eq!(row.ledger_timestamp.seconds, 1_704_067_200);
    let bad = LedgerMeta { timestamp: "never", ..meta };
    assert!(bad.row().is_err());
}

#[test]
fn contracts_that_are_no_tokens_are_stored_as_such() {
    let token = TokenMetadataResolution::Token {
        name: "Example Token".to_string(),
        symbol: "EXT".to_string(),
        decimals: 7,
    };
    assert_eq!(metadata_columns(&token), (Some("Example Token"), Some("EXT"), Some(7), true));
    let none = TokenMetadataResolution::NotAToken;
    assert_eq!(metadata_columns(&none), (None, None, None, false));
}

#[test]
fn a_pass_stops_at_the_first_failure() {
    let mut pass = RelayPass::new(vec![5, 6, 7]);
    assert_eq!(pass.next_row(), Some(0));
    pass.record(Delivery::Published);
    pass.record(Delivery::Undecodable);
    assert_eq!(pass.next_row(), Some(2));
    pass.record(Delivery::Failed);
    assert_eq!(pass.next_row(), None);
    assert_eq!(pass.marked(), &[5, 6]);
    assert_eq!(pass.published(), 1);
}

#[test]
fn rows_that_cannot_be_decoded_are_not_counted_as_published() {
    let mut pass = RelayPass::new(vec![5, 6]);
    pass.record(Delivery::Undecodable);
    pass.record(Delivery::Published);
    assert_eq!(pass.next_row(), None);
    assert_eq!(pass.marked(), &[5, 6]);
    assert_eq!(pass.published(), 1);
}

#[test]
fn a_backlog_alarms_from_its_threshold_on() {
    let config = RelayConfig {
        interval: 1_000,
        batch_size: 100,
        backlog_alert_threshold: 10,
        stream_maxlen: 1_000,
    };
    assert!(!config.backlog_is_alarming(9));
    assert!(config.backlog_is_alarming(10));
}

#[test]
fn stream_entries_hold_the_event() {
    let fields = stream_fields(&event(3, "2024-01-01T00:00:00Z"), "7", Some("the-id"));
    let find = |name: &str| {
        fields.iter().find(|(n, _)| *n == name).map(|(_, v)| v.as_str()).unwrap_or("none")
    };
    assert_eq!(find("contract_id"), "CABC");
    assert_eq!(find("topics"), "[\"transfer\"]");
    assert_eq!(find("data"), "7");
    assert_eq!(find("ledger_sequence"), "42");
    assert_eq!(fields[fields.len() - 1].1, "the-id");
    assert_eq!(STREAM_KEY, "trident:events");
}

#[test]
fn configurations_come_from_variables() {
    let vars = |days: &str| {
        vec![
            ("DATABASE_URL".to_string(), "postgres://d".to_string()),
            ("REDIS_URL".to_string(), "redis://r".to_string()),
            ("EVENT_RETENTION_DAYS".to_string(), days.to_string()),
        ]
    };
    let config = Config::from_env(&vars("30"));
    assert_eq!(config.database_url, "postgres://d");
    assert_eq!(config.redis_url, "redis://r");
    assert_eq!(config.event_retention_days, Some(30));
    assert_eq!(Config::from_env(&vars("a month")).event_retention_days, None);
}

#[test]
fn paths_lead_to_their_probe() {
    assert_eq!(request_path("GET /readyz HTTP/1.1\r\n"), "/readyz");
    assert_eq!(request_path("GET"), "/");
    assert_eq!(route("/healthz"), Route::Healthz);
    assert_eq!(route("/readyz"), Route::Readyz);
    assert_eq!(route("/admin/dead-letter"), Route::DeadLetter);
    assert_eq!(route("/"), Route::NotFound);
    assert!(ends_headers("\r\n"));
    assert!(!ends_headers("Host: a\r\n"));
}

#[test]
fn answers_are_written_as_http() {
    assert_eq!(
        write_answer(&healthz()),
        "HTTP/1.1 200 OK\r\nContent-Type: text/plain\r\nContent-Length: 3\r\nConnection: close\r\n\r\nok\n"
    );
    assert_eq!(not_found().code, 404);
    assert_eq!(dead_letter_answer(Ok("[]".to_string())).content_type, "application/json");
    assert_eq!(dead_letter_answer(Err("down".to_string())).code, 500);
}

#[test]
fn readiness_takes_both_services() {
    assert_eq!(readyz(true, true).code, 200);
    for (db, redis) in [(true, false), (false, true), (false, false)] {
        assert_eq!(readyz(db, redis).code, 503);
    }
}

#[test]
fn times_are_read_and_written() {
    let t = ledger_time("2024-01-01T00:00:00.25Z").unwrap();
    assert_eq!(t.seconds, 1_704_067_200);
    assert_eq!(t.nanos, 250_000_000);
    assert_eq!(time_text(t).as_deref(), Some("2024-01-01T00:00:00.250+00:00"));
    assert!(ledger_time("soon").is_err());
}

#[test]
fn networks_are_named_in_any_case() {
    assert_eq!(Network::from_str("MainNet").unwrap(), Network::Mainnet);
    assert_eq!(Network::all(), ["mainnet", "testnet", "futurenet", "sandbox"]);
    let err: ErrorSource = Network::from_str("moonnet").unwrap_err();
    assert!(err.to_string().contains("moonnet"));
}

#[test]
fn ids_of_events_are_name_based() {
    let id = event_uuid("CABC", 100, 0);
    assert_eq!(id[6] >> 4, 5);
    assert_eq!(id[8] >> 6, 2);
    assert_ne!(id, event_uuid("CABC", 10, 0));
}

#[test]
fn dead_letters_are_listed() {
    let rows = vec![DeadLetterRow {
        id: 5,
        ledger_sequence: 42,
        event_index: 1,
        error_message: "bad XDR".to_string(),
        created_at: "2024-01-01T00:00:00".to_string(),
    }];
    let json = dead_letter_entries(&rows);
    let listed = json.as_array().expect("an array");
    assert_eq!(listed.len(), 1);
    assert_eq!(listed[0].get("id"), Some(&Json::Number(5)));
    assert_eq!(listed[0].get("error_message").and_then(|v| v.as_str()), Some("bad XDR"));
}
