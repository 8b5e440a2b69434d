use base64::engine::general_purpose::STANDARD;
use base64::Engine;
use stellar_xdr::curr as x;
use stellar_xdr::curr::WriteXdr;
use trident::decode::decode_scval;
use trident::indexer::parser::token_events::{
    decode_token_event, try_decode_token_event, TokenEventType,
};
use trident::json::Json;
use trident::scval::{ScAddress, ScVal};

fn xdr_b64(val: &x::ScVal) -> String {
    let mut buf = Vec::new();
    val.write_xdr(&mut x::Limited::new(&mut buf, x::Limits::none())).expect("XDR encode");
    STANDARD.encode(buf)
}

fn field<'a>(out: &'a Json, name: &str) -> &'a str {
    out.get(name).and_then(|v| v.as_str()).expect("a text")
}

fn sym(s: &str) -> ScVal {
    ScVal::Symbol(s.as_bytes().to_vec())
}

fn account_addr(seed: u8) -> ScVal {
    ScVal::Address(ScAddress::Account([seed; 32]))
}

fn contract_addr(seed: u8) -> ScVal {
    ScVal::Address(ScAddress::Contract([seed; 32]))
}

fn i128_val(v: i128) -> ScVal {
    ScVal::I128 { hi: (v >> 64) as i64, lo: v as u64 }
}

#[test]
fn token_events_transfer_happy_path() {
    let topics = vec![sym("transfer"), account_addr(1), account_addr(2)];
    let out = try_decode_token_event(&topics, &i128_val(1_000_000)).expect("decode");
    assert_eq!(field(&out, "event"), "transfer");
    assert_eq!(field(&out, "amount"), "1000000");
    assert!(field(&out, "from").len() > 10);
    assert!(field(&out, "to").len() > 10);
}

#[test]
fn transfer_large_i128_as_string() {
    let topics = vec![sym("transfer"), account_addr(1), account_addr(2)];
    let out = try_decode_token_event(&topics, &i128_val(i128::MAX)).expect("decode");
    assert_eq!(field(&out, "amount"), i128::MAX.to_string());
}

#[test]
fn token_events_mint_happy_path() {
    let topics = vec![sym("mint"), account_addr(0xAA), account_addr(0xBB)];
    let out = try_decode_token_event(&topics, &i128_val(5_000)).expect("decode");
    assert_eq!(field(&out, "event"), "mint");
    assert_eq!(field(&out, "amount"), "5000");
}

#[test]
fn burn_happy_path() {
    let topics = vec![sym("burn"), account_addr(1)];
    let out = try_decode_token_event(&topics, &i128_val(250)).expect("decode");
    assert_eq!(field(&out, "event"), "burn");
    assert_eq!(field(&out, "amount"), "250");
}

#[test]
fn clawback_happy_path() {
    let topics = vec![sym("clawback"), account_addr(0xAA), account_addr(0xBB)];
    let out = try_decode_token_event(&topics, &i128_val(999)).expect("decode");
    assert_eq!(field(&out, "event"), "clawback");
    assert_eq!(field(&out, "amount"), "999");
}

#[test]
fn set_admin_happy_path() {
    let topics = vec![sym("set_admin"), account_addr(1)];
    let new_admin = contract_addr(0xFF);
    let out = try_decode_token_event(&topics, &new_admin).expect("decode");
    assert_eq!(field(&out, "event"), "set_admin");
    assert!(field(&out, "new_admin").starts_with("C"));
}

#[test]
fn set_authorized_happy_path() {
    let topics = vec![sym("set_authorized"), account_addr(1), account_addr(2)];
    let out = try_decode_token_event(&topics, &ScVal::Bool(true)).expect("decode");
    assert_eq!(field(&out, "event"), "set_authorized");
    assert_eq!(out.get("authorize"), Some(&Json::Bool(true)));
}

#[test]
fn increase_supply_happy_path() {
    let topics = vec![sym("increase_supply"), account_addr(0xCC)];
    let out = try_decode_token_event(&topics, &i128_val(100_000_000)).expect("decode");
    assert_eq!(field(&out, "event"), "increase_supply");
    assert_eq!(field(&out, "amount"), "100000000");
}

#[test]
fn malformed_transfer_missing_to_returns_none() {
    let topics = vec![sym("transfer"), account_addr(1)];
    assert!(try_decode_token_event(&topics, &i128_val(100)).is_none());
}

#[test]
fn malformed_transfer_wrong_data_type_returns_none() {
    let topics = vec![sym("transfer"), account_addr(1), account_addr(2)];
    assert!(try_decode_token_event(&topics, &ScVal::Bool(true)).is_none());
}

#[test]
fn token_events_unknown_event_name_returns_none() {
    let topics = vec![sym("custom_event"), account_addr(1)];
    assert!(try_decode_token_event(&topics, &ScVal::Void).is_none());
}

#[test]
fn non_symbol_first_topic_returns_none() {
    assert!(try_decode_token_event(&[ScVal::Bool(true)], &ScVal::Void).is_none());
}

#[test]
fn empty_topics_returns_none() {
    assert!(try_decode_token_event(&[], &ScVal::Void).is_none());
}

#[test]
fn negative_i128_transfer_amount() {
    let topics = vec![sym("transfer"), account_addr(1), account_addr(2)];
    let out = try_decode_token_event(&topics, &i128_val(-1)).expect("decode");
    assert_eq!(field(&out, "amount"), "-1");
}

#[test]
fn xdr_round_trip_via_parser_decode() {
    let wired = x::ScVal::I128(x::Int128Parts { hi: 0, lo: 42_000_000 });
    let b64 = xdr_b64(&wired);
    let decoded = decode_scval(&b64).expect("decode");
    let topics = vec![sym("transfer"), account_addr(1), account_addr(2)];
    let out = try_decode_token_event(&topics, &decoded).expect("typed decode");
    assert_eq!(field(&out, "amount"), "42000000");
}

fn vec_val(items: Vec<ScVal>) -> ScVal {
    ScVal::Vec(Some(items))
}

#[test]
fn typed_transfer_populates_from_to_and_amount() {
    let topics = vec![sym("transfer"), account_addr(1), account_addr(2)];
    let event = decode_token_event(&topics, &i128_val(1_000_000)).expect("decode");
    assert_eq!(event.event_type, TokenEventType::Transfer);
    assert!(event.from.is_some());
    assert!(event.to.is_some());
    assert_eq!(event.amount.as_deref(), Some("1000000"));
    assert!(event.admin.is_none());
    assert!(event.spender.is_none());
}

#[test]
fn typed_mint_records_admin_and_recipient() {
    let topics = vec![sym("mint"), account_addr(0xAA), account_addr(0xBB)];
    let event = decode_token_event(&topics, &i128_val(5_000)).expect("decode");
    assert_eq!(event.event_type, TokenEventType::Mint);
    assert!(event.admin.is_some());
    assert!(event.to.is_some());
    assert_eq!(event.amount.as_deref(), Some("5000"));
}

#[test]
fn typed_burn_records_only_source_and_amount() {
    let topics = vec![sym("burn"), account_addr(1)];
    let event = decode_token_event(&topics, &i128_val(250)).expect("decode");
    assert_eq!(event.event_type, TokenEventType::Burn);
    assert!(event.from.is_some());
    assert!(event.to.is_none());
    assert_eq!(event.amount.as_deref(), Some("250"));
}

#[test]
fn typed_clawback_records_admin_and_source() {
    let topics = vec![sym("clawback"), account_addr(0xAA), account_addr(0xBB)];
    let event = decode_token_event(&topics, &i128_val(999)).expect("decode");
    assert_eq!(event.event_type, TokenEventType::Clawback);
    assert!(event.admin.is_some());
    assert!(event.from.is_some());
}

#[test]
fn typed_approve_records_spender_and_expiration() {
    let topics = vec![sym("approve"), account_addr(1), account_addr(2)];
    let body = vec_val(vec![i128_val(42), ScVal::U32(1_234)]);
    let event = decode_token_event(&topics, &body).expect("decode");
    assert_eq!(event.event_type, TokenEventType::Approve);
    assert!(event.spender.is_some());
    assert_eq!(event.amount.as_deref(), Some("42"));
    assert_eq!(event.expiration_ledger, Some(1_234));
}

#[test]
fn typed_approve_rejects_a_bare_amount_body() {
    // A two-value event whose body is a single i128 is not the token
    // interface shape and must not be projected.
    let topics = vec![sym("approve"), account_addr(1), account_addr(2)];
    assert!(decode_token_event(&topics, &i128_val(42)).is_none());
}

#[test]
fn typed_amounts_stay_strings_at_i128_extremes() {
    let topics = vec![sym("transfer"), account_addr(1), account_addr(2)];
    let event = decode_token_event(&topics, &i128_val(i128::MAX)).expect("decode");
    assert_eq!(
        event.amount.as_deref(),
        Some(i128::MAX.to_string().as_str())
    );
}

#[test]
fn typed_decoder_ignores_administrative_events() {
    // set_admin decodes to JSON but moves no value, so it is not projected.
    let topics = vec![sym("set_admin"), account_addr(1)];
    assert!(decode_token_event(&topics, &contract_addr(0xFF)).is_none());
}

#[test]
fn typed_decoder_ignores_a_transfer_topic_with_a_foreign_shape() {
    // Any contract may emit "transfer"; only the token layout is projected.
    let topics = vec![sym("transfer"), account_addr(1), account_addr(2)];
    assert!(decode_token_event(&topics, &ScVal::Bool(true)).is_none());
}

#[test]
fn typed_decoder_ignores_unknown_event_names() {
    let topics = vec![sym("swap"), account_addr(1)];
    assert!(decode_token_event(&topics, &i128_val(1)).is_none());
}

#[test]
fn clawback_negative_amount() {
    let topics = vec![sym("clawback"), account_addr(0xAA), account_addr(0xBB)];
    let out = try_decode_token_event(&topics, &i128_val(-500)).expect("decode");
    assert_eq!(field(&out, "amount"), "-500");
}

#[test]
fn addresses_are_given_as_strkeys() {
    let topics = vec![sym("transfer"), account_addr(0), contract_addr(0)];
    let event = decode_token_event(&topics, &i128_val(1)).expect("decode");
    assert_eq!(
        event.from.as_deref(),
        Some("GAAAAAAAAAAAAAAAAAAAAAAAAAAAAAAAAAAAAAAAAAAAAAAAAAAAAWHF")
    );
    assert_eq!(
        event.to.as_deref(),
        Some("CAAAAAAAAAAAAAAAAAAAAAAAAAAAAAAAAAAAAAAAAAAAAAAAAAAABSC4")
    );
    assert_eq!(event.event_type.as_str(), "transfer");
}
