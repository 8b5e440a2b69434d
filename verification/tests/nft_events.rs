use trident::indexer::parser::nft_events::{decode_nft_event, try_decode_nft_event, NftEventType};
use trident::json::Json;
use trident::scval::{ScAddress, ScVal};

fn field<'a>(out: &'a Json, name: &str) -> &'a str {
    out.get(name).and_then(|v| v.as_str()).expect("a text")
}

fn sym(s: &str) -> ScVal {
    ScVal::Symbol(s.as_bytes().to_vec())
}

fn account_addr(seed: u8) -> ScVal {
    ScVal::Address(ScAddress::Account([seed; 32]))
}

fn contract_addr(seed: u8) -> ScVal {
    ScVal::Address(ScAddress::Contract([seed; 32]))
}

fn sc_string(s: &str) -> ScVal {
    ScVal::String(s.as_bytes().to_vec())
}

#[test]
fn nft_events_mint_happy_path() {
    let topics = vec![
        sym("mint"),
        contract_addr(1),
        account_addr(2),
        ScVal::U64(42),
    ];
    let data = sc_string("ipfs://Qm123");
    let ev = decode_nft_event(&topics, &data).expect("decode");
    assert_eq!(ev.event_type, NftEventType::Mint);
    assert!(ev.admin.is_some());
    assert!(ev.to.is_some());
    assert_eq!(ev.token_id, 42);
    assert_eq!(ev.uri.as_deref(), Some("ipfs://Qm123"));
    assert!(ev.from.is_none());
}

#[test]
fn nft_events_transfer_happy_path() {
    let topics = vec![
        sym("transfer"),
        account_addr(1),
        account_addr(2),
        ScVal::U64(7),
    ];
    let ev = decode_nft_event(&topics, &ScVal::Void).expect("decode");
    assert_eq!(ev.event_type, NftEventType::Transfer);
    assert!(ev.from.is_some());
    assert!(ev.to.is_some());
    assert_eq!(ev.token_id, 7);
    assert!(ev.uri.is_none());
    assert!(ev.admin.is_none());
}

#[test]
fn u32_token_id_accepted() {
    let topics = vec![
        sym("transfer"),
        account_addr(1),
        account_addr(2),
        ScVal::U32(99),
    ];
    let ev = decode_nft_event(&topics, &ScVal::Void).expect("decode");
    assert_eq!(ev.token_id, 99);
}

#[test]
fn nft_events_unknown_event_name_returns_none() {
    let topics = vec![sym("swap"), account_addr(1)];
    assert!(decode_nft_event(&topics, &ScVal::Void).is_none());
}

#[test]
fn missing_token_id_returns_none() {
    let topics = vec![sym("transfer"), account_addr(1), account_addr(2)];
    assert!(decode_nft_event(&topics, &ScVal::Void).is_none());
}

#[test]
fn json_output_contains_all_fields() {
    let topics = vec![
        sym("mint"),
        contract_addr(1),
        account_addr(2),
        ScVal::U64(1),
    ];
    let out = try_decode_nft_event(&topics, &sc_string("ipfs://abc")).expect("decode");
    assert_eq!(field(&out, "event"), "mint");
    assert_eq!(out.get("token_id"), Some(&Json::Number(1)));
    assert_eq!(field(&out, "uri"), "ipfs://abc");
}

#[test]
fn transfers_carry_nothing_in_the_body() {
    let topics = vec![sym("transfer"), account_addr(1), account_addr(2), ScVal::U64(7)];
    assert!(decode_nft_event(&topics, &ScVal::Bool(true)).is_none());
    assert!(decode_nft_event(&topics, &ScVal::Void).is_some());
}
