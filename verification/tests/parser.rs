use base64::engine::general_purpose::STANDARD;
use base64::Engine;
use stellar_xdr::curr as x;
use stellar_xdr::curr::WriteXdr;
use trident::indexer::parser::events::Parser;
use trident::indexer::parser::indexes::assign_unique_event_indexes;
use trident::indexer::parser::sac::{derive_sac_contract_id, SacRegistry, TrackedAsset};
use trident::json::Json;
use trident::raw::{raw_event_index, RawEvent};
use trident::types::{EventType, SorobanEvent};

fn text(s: &str) -> Json {
    Json::String(s.to_string())
}

fn ev(ledger: u64, tx: &str, index: u32) -> SorobanEvent {
    SorobanEvent {
        contract_id: "C".to_string(),
        topics: Vec::new(),
        data: Json::Null,
        ledger_sequence: ledger,
        ledger_timestamp: "2026-08-09T20:00:00Z".to_string(),
        transaction_hash: tx.to_string(),
        event_index: index,
        event_type: EventType::Contract,
    }
}

#[test]
fn duplicate_event_indexes_within_a_transaction_are_separated() {
    let mut events = vec![ev(7, "aa", 0), ev(7, "aa", 0), ev(7, "aa", 0)];
    assign_unique_event_indexes(&mut events);
    let indexes: Vec<u32> = events.iter().map(|e| e.event_index).collect();
    assert_eq!(indexes, vec![0, 1, 2]);
}

#[test]
fn distinct_event_indexes_are_left_alone() {
    // A server that reports operationIndex correctly must not be perturbed.
    let mut events = vec![ev(7, "aa", 0), ev(7, "aa", 1), ev(7, "aa", 2)];
    assign_unique_event_indexes(&mut events);
    let indexes: Vec<u32> = events.iter().map(|e| e.event_index).collect();
    assert_eq!(indexes, vec![0, 1, 2]);
}

#[test]
fn the_key_is_scoped_per_transaction_and_ledger() {
    // The constraint includes tx_hash and ledger, so the same index in a
    // different transaction or ledger is legitimate and must be preserved.
    let mut events = vec![ev(7, "aa", 0), ev(7, "bb", 0), ev(8, "aa", 0)];
    assign_unique_event_indexes(&mut events);
    let indexes: Vec<u32> = events.iter().map(|e| e.event_index).collect();
    assert_eq!(indexes, vec![0, 0, 0]);
}

#[test]
fn event_index_prefers_operation_index_over_the_legacy_id_suffix() {
    let mut raw = raw_event_fixture();
    raw.id = "0000000000000000007-0000000009".to_string();
    raw.operation_index = Some(3);
    assert_eq!(raw_event_index(&raw), 3);
}

#[test]
fn event_index_falls_back_to_the_id_suffix_on_older_servers() {
    let mut raw = raw_event_fixture();
    raw.id = "0000000000000000007-0000000009".to_string();
    raw.operation_index = None;
    assert_eq!(raw_event_index(&raw), 9);
}

fn xdr_b64(val: &x::ScVal) -> String {
    let mut buf = Vec::new();
    val.write_xdr(&mut x::Limited::new(&mut buf, x::Limits::none()))
        .expect("XDR encode failed");
    STANDARD.encode(buf)
}

fn sym(s: &str) -> x::ScVal {
    x::ScVal::Symbol(x::ScSymbol::try_from(s.to_string()).expect("symbol too long"))
}

fn make_event(
    event_type: &str,
    contract_id: Option<&str>,
    topics: Vec<x::ScVal>,
    value: x::ScVal,
    successful: bool,
) -> RawEvent {
    RawEvent {
        event_type: event_type.to_string(),
        ledger: "500".to_string(),
        ledger_closed_at: "2024-06-01T00:00:00Z".to_string(),
        contract_id: contract_id.map(str::to_string),
        id: "0000000000500000-0".to_string(),
        paging_token: Some("token1".to_string()),
        tx_hash: "deadbeefdeadbeef".to_string(),
        operation_index: None,
        topic: topics.iter().map(xdr_b64).collect(),
        value: xdr_b64(&value),
        in_successful_contract_call: successful,
    }
}

fn raw_event_fixture() -> RawEvent {
    make_event("contract", Some("CA"), vec![], x::ScVal::Void, true)
}

#[test]
fn token_transfer_topics_and_amount_decoded() {
    // Standard SEP-41 transfer: topics=[Symbol("transfer"), Addr(from), Addr(to)], data=I128(amount)
    let from = x::ScVal::Address(x::ScAddress::Account(x::AccountId(
        x::PublicKey::PublicKeyTypeEd25519(x::Uint256([1u8; 32])),
    )));
    let to = x::ScVal::Address(x::ScAddress::Account(x::AccountId(
        x::PublicKey::PublicKeyTypeEd25519(x::Uint256([2u8; 32])),
    )));
    let amount = x::ScVal::I128(x::Int128Parts {
        hi: 0,
        lo: 1_000_000,
    });

    let contract_id = "CAAAAAAAAAAAAAAAAAAAAAAAAAAAAAAAAAAAAAAAAAAAAAAAAAAAD2KM";
    let raw = make_event(
        "contract",
        Some(contract_id),
        vec![sym("transfer"), from, to],
        amount,
        true,
    );

    let parser = Parser::new(false);
    let event = parser
        .parse_event_with_projection(&raw)
        .unwrap()
        .unwrap()
        .event;

    assert_eq!(event.contract_id, contract_id);
    assert_eq!(event.topics[0], "transfer");
    assert_eq!(event.data, Json::Number(1_000_000));
    assert_eq!(event.ledger_sequence, 500);
    assert_eq!(event.transaction_hash, "deadbeefdeadbeef");
}

#[test]
fn mint_event_symbol_and_address_topics() {
    let to = x::ScVal::Address(x::ScAddress::Account(x::AccountId(
        x::PublicKey::PublicKeyTypeEd25519(x::Uint256([3u8; 32])),
    )));
    let amount = x::ScVal::I128(x::Int128Parts { hi: 0, lo: 5_000 });

    let raw = make_event(
        "contract",
        Some("CONTRACT"),
        vec![sym("mint"), to],
        amount,
        true,
    );

    let parser = Parser::new(false);
    let event = parser
        .parse_event_with_projection(&raw)
        .unwrap()
        .unwrap()
        .event;

    assert_eq!(event.topics[0], "mint");
    assert_eq!(event.data, Json::Number(5_000));
}

#[test]
fn transfer_event_yields_a_token_projection() {
    let from = x::ScVal::Address(x::ScAddress::Account(x::AccountId(
        x::PublicKey::PublicKeyTypeEd25519(x::Uint256([1u8; 32])),
    )));
    let to = x::ScVal::Address(x::ScAddress::Account(x::AccountId(
        x::PublicKey::PublicKeyTypeEd25519(x::Uint256([2u8; 32])),
    )));
    let amount = x::ScVal::I128(x::Int128Parts { hi: 0, lo: 7_500 });

    let raw = make_event(
        "contract",
        Some("CTOKEN"),
        vec![sym("transfer"), from, to],
        amount,
        true,
    );

    let parsed = Parser::new(false)
        .parse_event_with_projection(&raw)
        .unwrap()
        .unwrap();
    let token = parsed.token.expect("transfer must produce a projection");
    assert_eq!(token.amount.as_deref(), Some("7500"));
    assert_eq!(parsed.event.contract_id, "CTOKEN");
}

#[test]
fn non_token_event_yields_no_projection() {
    let raw = make_event(
        "contract",
        Some("CAPP"),
        vec![sym("swap")],
        x::ScVal::Void,
        true,
    );
    let parsed = Parser::new(false)
        .parse_event_with_projection(&raw)
        .unwrap()
        .unwrap();
    assert!(
        parsed.token.is_none(),
        "a non-token event must not be projected"
    );
}

#[test]
fn map_event_data_decodes_to_json_object() {
    let entries: Vec<x::ScMapEntry> = vec![
        x::ScMapEntry {
            key: x::ScVal::Symbol(x::ScSymbol::try_from("amount".to_string()).unwrap()),
            val: x::ScVal::I128(x::Int128Parts { hi: 0, lo: 100 }),
        },
        x::ScMapEntry {
            key: x::ScVal::Symbol(x::ScSymbol::try_from("fee".to_string()).unwrap()),
            val: x::ScVal::I128(x::Int128Parts { hi: 0, lo: 1 }),
        },
    ];
    let map_val = x::ScVal::Map(Some(x::ScMap(x::VecM::try_from(entries).unwrap())));
    let raw = make_event("contract", None, vec![sym("custom")], map_val, true);

    let parser = Parser::new(false);
    let event = parser
        .parse_event_with_projection(&raw)
        .unwrap()
        .unwrap()
        .event;

    assert!(matches!(event.data, Json::Object(_)), "data should be a JSON object");
    assert_eq!(event.data.get("amount"), Some(&Json::Number(100)));
    assert_eq!(event.data.get("fee"), Some(&Json::Number(1)));
}

#[test]
fn diagnostic_event_skipped_when_index_diagnostic_false() {
    let raw = make_event("diagnostic", None, vec![sym("debug")], x::ScVal::Void, true);
    let parser = Parser::new(false);
    assert!(
        parser.parse_event_with_projection(&raw).unwrap().is_none(),
        "diagnostic events must be skipped when index_diagnostic=false"
    );
}

#[test]
fn diagnostic_event_included_when_index_diagnostic_true() {
    let raw = make_event("diagnostic", None, vec![sym("debug")], x::ScVal::Void, true);
    let parser = Parser::new(true);
    assert!(
        parser.parse_event_with_projection(&raw).unwrap().is_some(),
        "diagnostic events must be indexed when index_diagnostic=true"
    );
}

#[test]
fn failed_contract_call_filtered() {
    let raw = make_event("contract", None, vec![sym("transfer")], x::ScVal::Void, false);
    let parser = Parser::new(false);
    assert!(
        parser.parse_event_with_projection(&raw).unwrap().is_none(),
        "events from failed contract calls must be filtered out"
    );
}

#[test]
fn large_i128_decoded_as_json_string() {
    // i128::MAX — the largest value the decoder can represent, and well
    // beyond the 2^53 range a JSON number can carry losslessly, so it must
    // come back as a decimal string rather than a number.
    let v = x::ScVal::I128(x::Int128Parts {
        hi: (i128::MAX >> 64) as i64,
        lo: u64::MAX,
    });

    let raw = make_event("contract", None, vec![], v, true);
    let event = Parser::new(false)
        .parse_event_with_projection(&raw)
        .unwrap()
        .unwrap()
        .event;

    assert!(
        event.data.as_str().is_some(),
        "large i128 must be a JSON string, got: {event:?}"
    );
    assert_eq!(
        event.data.as_str().unwrap(),
        "170141183460469231731687303715884105727",
        "exact decimal string must survive round-trip XDR -> JSON"
    );
}

#[test]
fn u256_decoded_as_decimal_string() {
    let v = x::ScVal::U256(x::UInt256Parts {
        hi_hi: 0,
        hi_lo: 0,
        lo_hi: 0,
        lo_lo: 1,
    });

    let raw = make_event("contract", None, vec![], v, true);
    let event = Parser::new(false)
        .parse_event_with_projection(&raw)
        .unwrap()
        .unwrap()
        .event;

    assert_eq!(
        event.data,
        text("1"),
        "u256(1) must encode as \"1\""
    );
}

#[test]
fn i256_decoded_as_decimal_string() {
    // -1 as a 256-bit two's-complement integer: every limb is all-ones.
    // `hi_hi` is the signed high limb; the rest are unsigned.
    let v = x::ScVal::I256(x::Int256Parts {
        hi_hi: -1,
        hi_lo: u64::MAX,
        lo_hi: u64::MAX,
        lo_lo: u64::MAX,
    });

    let raw = make_event("contract", None, vec![], v, true);
    let event = Parser::new(false)
        .parse_event_with_projection(&raw)
        .unwrap()
        .unwrap()
        .event;

    assert_eq!(
        event.data,
        text("-1"),
        "i256(-1) must encode as \"-1\""
    );
}

#[test]
fn small_i128_remains_json_number() {
    let v = x::ScVal::I128(x::Int128Parts { hi: 0, lo: 123 });
    let raw = make_event("contract", None, vec![], v, true);
    let event = Parser::new(false)
        .parse_event_with_projection(&raw)
        .unwrap()
        .unwrap()
        .event;

    assert!(
        matches!(event.data, Json::Number(_)),
        "small i128 that fits in i64 should remain a JSON number: {event:?}",
    );
    assert_eq!(event.data, Json::Number(123));
}

#[test]
fn contract_address_topic_decoded_to_strkey() {
    let contract_hash = [0xABu8; 32];
    let addr = x::ScVal::Address(x::ScAddress::Contract(x::ContractId(x::Hash(contract_hash))));
    let raw = make_event(
        "contract",
        None,
        vec![sym("event"), addr],
        x::ScVal::Void,
        true,
    );

    let parser = Parser::new(false);
    let event = parser
        .parse_event_with_projection(&raw)
        .unwrap()
        .unwrap()
        .event;

    assert!(
        event.topics[1].starts_with('C'),
        "contract strkey must start with C, got: {}",
        event.topics[1]
    );
    assert_eq!(
        event.topics[1].len(),
        56,
        "contract strkey must be 56 chars"
    );
}


#[test]
fn parser_with_no_sac_registry_attaches_no_asset_context() {
    let from = x::ScVal::Address(x::ScAddress::Account(x::AccountId(
        x::PublicKey::PublicKeyTypeEd25519(x::Uint256([1u8; 32])),
    )));
    let to = x::ScVal::Address(x::ScAddress::Account(x::AccountId(
        x::PublicKey::PublicKeyTypeEd25519(x::Uint256([2u8; 32])),
    )));
    let amount = x::ScVal::I128(x::Int128Parts { hi: 0, lo: 42 });
    let raw = make_event(
        "contract",
        Some("CANYCONTRACT"),
        vec![sym("transfer"), from, to],
        amount,
        true,
    );

    let parsed = Parser::new(false)
        .parse_event_with_projection(&raw)
        .unwrap()
        .unwrap();
    let token = parsed.token.expect("transfer must produce a projection");
    assert!(token.asset_code.is_none());
    assert!(token.asset_issuer.is_none());
}


#[test]
fn poison_event_with_corrupt_topic_returns_error_not_panic() {
    let raw = RawEvent {
        event_type: "contract".to_string(),
        ledger: "500".to_string(),
        ledger_closed_at: "2024-06-01T00:00:00Z".to_string(),
        contract_id: Some("CA".to_string()),
        id: "0000000000500000-0".to_string(),
        paging_token: None,
        tx_hash: "deadbeef".to_string(),
        operation_index: None,
        topic: vec!["not-valid-xdr!!!".to_string()],
        value: "AAAAAQ==".to_string(),
        in_successful_contract_call: true,
    };

    let parser = Parser::new(false);
    let result = parser.parse_event_with_projection(&raw);
    assert!(result.is_err(), "corrupt topic must produce an error");
}

#[test]
fn poison_event_with_corrupt_value_returns_error_not_panic() {
    let raw = RawEvent {
        event_type: "contract".to_string(),
        ledger: "500".to_string(),
        ledger_closed_at: "2024-06-01T00:00:00Z".to_string(),
        contract_id: None,
        id: "0000000000500000-0".to_string(),
        paging_token: None,
        tx_hash: "deadbeef".to_string(),
        operation_index: None,
        topic: vec!["AAAAAA==".to_string()],
        value: "garbage!!!".to_string(),
        in_successful_contract_call: true,
    };

    let parser = Parser::new(false);
    let result = parser.parse_event_with_projection(&raw);
    assert!(result.is_err(), "corrupt value must produce an error");
}

#[test]
fn valid_event_after_poison_event_can_still_parse() {
    // Simulates two events in sequence: the first is poison, the second
    // is valid. The parser is stateless so the second must succeed
    // independently — the streamer can advance the cursor past the first.
    let poison = RawEvent {
        event_type: "contract".to_string(),
        ledger: "500".to_string(),
        ledger_closed_at: "2024-06-01T00:00:00Z".to_string(),
        contract_id: None,
        id: "0000000000500000-0".to_string(),
        paging_token: None,
        tx_hash: "deadbeef".to_string(),
        operation_index: None,
        topic: vec!["not-valid-xdr!!!".to_string()],
        value: "AAAAAQ==".to_string(),
        in_successful_contract_call: true,
    };

    let valid = make_event("contract", None, vec![sym("transfer")], x::ScVal::Void, true);

    let parser = Parser::new(false);
    assert!(parser.parse_event_with_projection(&poison).is_err());
    assert!(parser
        .parse_event_with_projection(&valid)
        .unwrap()
        .is_some());
}


#[test]
fn seed_corpus_of_realistic_events_parses_without_panicking() {
    let addr = |seed: u8| {
        x::ScVal::Address(x::ScAddress::Account(x::AccountId(
            x::PublicKey::PublicKeyTypeEd25519(x::Uint256([seed; 32])),
        )))
    };

    let seeds: Vec<RawEvent> = vec![
        // A standard SEP-41 `transfer` event.
        make_event(
            "contract",
            Some("CCONTRACT"),
            vec![sym("transfer"), addr(1), addr(2)],
            x::ScVal::I128(x::Int128Parts {
                hi: 0,
                lo: 1_000_000,
            }),
            true,
        ),
        // A diagnostic event (skipped unless index_diagnostic is set).
        make_event(
            "diagnostic",
            Some("CCONTRACT"),
            vec![sym("log")],
            x::ScVal::String(x::ScString(
                x::StringM::try_from(b"debug".to_vec()).unwrap(),
            )),
            true,
        ),
        // A system event with a Map-typed body (fee/resource accounting
        // shapes commonly look like this).
        make_event(
            "system",
            None,
            vec![sym("fee_charged")],
            x::ScVal::Map(Some(x::ScMap(
                x::VecM::try_from(vec![x::ScMapEntry {
                    key: x::ScVal::Symbol(x::ScSymbol::try_from("amount".to_string()).unwrap()),
                    val: x::ScVal::I64(12_345),
                }])
                .unwrap(),
            ))),
            true,
        ),
        // An event from a failed contract call — must be skipped
        // (`Ok(None)`), not treated as an error.
        make_event(
            "contract",
            Some("CCONTRACT"),
            vec![sym("transfer")],
            x::ScVal::Void,
            false,
        ),
    ];

    let parser = Parser::new(true);
    for raw in &seeds {
        let result = parser.parse_event_with_projection(raw);
        assert!(
            result.is_ok(),
            "seed corpus event must parse cleanly: {raw:?} -> {result:?}"
        );
    }
}

const TEST_PASSPHRASE: &str = "Test SDF Network ; September 2015";
const ISSUER: &str = "GAIRCEIRCEIRCEIRCEIRCEIRCEIRCEIRCEIRCEIRCEIRCEIRCEIRCF6M";

fn usdc_registry() -> SacRegistry {
    SacRegistry::build(
        &[TrackedAsset { code: "USDC".to_string(), issuer: ISSUER.to_string() }],
        TEST_PASSPHRASE,
    )
    .unwrap()
}

fn account(seed: u8) -> x::ScVal {
    x::ScVal::Address(x::ScAddress::Account(x::AccountId(
        x::PublicKey::PublicKeyTypeEd25519(x::Uint256([seed; 32])),
    )))
}

fn transfer_from_contract(contract_id: &str) -> RawEvent {
    make_event(
        "contract",
        Some(contract_id),
        vec![sym("transfer"), account(1), account(2)],
        x::ScVal::I128(x::Int128Parts { hi: 0, lo: 42 }),
        true,
    )
}

#[test]
fn transfers_of_a_tracked_asset_carry_it() {
    let contract_id = derive_sac_contract_id("USDC", ISSUER, TEST_PASSPHRASE).unwrap();
    let parser = Parser::new(false).with_sac_registry(usdc_registry());
    let parsed =
        parser.parse_event_with_projection(&transfer_from_contract(&contract_id)).unwrap().unwrap();
    let token = parsed.token.expect("a projection");
    assert_eq!(token.asset_code.as_deref(), Some("USDC"));
    assert_eq!(token.asset_issuer.as_deref(), Some(ISSUER));
}

#[test]
fn the_native_asset_has_no_issuer() {
    let assets = [TrackedAsset { code: "native".to_string(), issuer: String::new() }];
    let registry = SacRegistry::build(&assets, TEST_PASSPHRASE).unwrap();
    let contract_id = derive_sac_contract_id("native", "", TEST_PASSPHRASE).unwrap();
    let parser = Parser::new(false).with_sac_registry(registry);
    let raw = transfer_from_contract(&contract_id);
    let token = parser.parse_event_with_projection(&raw).unwrap().unwrap().token.unwrap();
    assert_eq!(token.asset_code.as_deref(), Some("native"));
    assert_eq!(token.asset_issuer, None);
}

#[test]
fn transfers_of_other_contracts_carry_no_asset() {
    let parser = Parser::new(false).with_sac_registry(usdc_registry());
    let raw = transfer_from_contract("CARBITRARYUNRELATEDCONTRACTNOTINREGISTRY");
    let token = parser.parse_event_with_projection(&raw).unwrap().unwrap().token.unwrap();
    assert!(token.asset_code.is_none());
    assert!(token.asset_issuer.is_none());
}

#[test]
fn mended_indexes_go_round_those_that_are_taken() {
    let mut events = vec![ev(7, "aa", 1), ev(7, "aa", 2), ev(7, "aa", 1)];
    assign_unique_event_indexes(&mut events);
    let indexes: Vec<u32> = events.iter().map(|e| e.event_index).collect();
    assert_eq!(indexes, vec![1, 2, 3]);
}

#[test]
fn events_at_the_last_position_find_another() {
    let mut events = vec![ev(7, "aa", u32::MAX), ev(7, "aa", u32::MAX), ev(7, "bb", u32::MAX)];
    assign_unique_event_indexes(&mut events);
    let indexes: Vec<u32> = events.iter().map(|e| e.event_index).collect();
    assert_eq!(indexes, vec![u32::MAX, 0, u32::MAX]);
}

#[test]
fn unknown_event_types_are_errors() {
    let raw = make_event("mystery", None, vec![], x::ScVal::Void, true);
    let err = Parser::new(true).parse_event_with_projection(&raw).unwrap_err();
    assert!(err.to_string().contains("mystery"));
}

#[test]
fn ledgers_that_are_no_numbers_are_errors() {
    let mut raw = raw_event_fixture();
    raw.ledger = "five".to_string();
    assert!(Parser::new(true).parse_event_with_projection(&raw).is_err());
}

#[test]
fn page_cursors_prefer_the_paging_token() {
    let mut raw = raw_event_fixture();
    assert_eq!(raw.page_cursor(), "token1");
    raw.paging_token = None;
    assert_eq!(raw.page_cursor(), "0000000000500000-0");
}
