use base64::engine::general_purpose::STANDARD;
use base64::Engine;
use stellar_xdr::curr as x;
use stellar_xdr::curr::WriteXdr;
use trident::raw::RawEvent;
use trident::scval::{ContractExecutable, ScMapEntry, ScVal};
use trident::unexpected::{
    unexpected_in_event, unexpected_in_json, unexpected_in_text, unexpected_in_walk, Notice,
    Rendering, Variant,
};

fn in_text(variant: Variant) -> Notice {
    Notice { rendering: Rendering::Text, variant }
}

fn in_json(variant: Variant) -> Notice {
    Notice { rendering: Rendering::Json, variant }
}

fn wire(val: &x::ScVal) -> String {
    let mut buf = Vec::new();
    val.write_xdr(&mut x::Limited::new(&mut buf, x::Limits::none())).expect("XDR encode");
    STANDARD.encode(buf)
}

fn raw(topic: Vec<String>, value: String) -> RawEvent {
    RawEvent {
        event_type: "contract".to_string(),
        ledger: "500".to_string(),
        ledger_closed_at: "2024-06-01T00:00:00Z".to_string(),
        contract_id: None,
        id: "some-id".to_string(),
        paging_token: None,
        tx_hash: "some-hash".to_string(),
        operation_index: None,
        topic,
        value,
        in_successful_contract_call: true,
    }
}

#[test]
fn ordinary_values_raise_no_notice() {
    for val in [ScVal::Timepoint(1), ScVal::Void, ScVal::U32(7), ScVal::Vec(None)] {
        assert!(unexpected_in_text(&val).is_empty());
        assert!(unexpected_in_json(&val).is_empty());
    }
}

#[test]
fn nested_values_are_noticed_in_order() {
    let val = ScVal::Vec(Some(vec![
        ScVal::LedgerKeyNonce(5),
        ScVal::Mapping(Some(vec![ScMapEntry {
            key: ScVal::LedgerKeyContractInstance,
            val: ScVal::LedgerKeyNonce(6),
        }])),
    ]));
    assert_eq!(
        unexpected_in_text(&val),
        vec![
            in_text(Variant::LedgerKeyNonce),
            in_text(Variant::LedgerKeyContractInstance),
            in_text(Variant::LedgerKeyNonce),
        ]
    );
    assert_eq!(
        unexpected_in_json(&val),
        vec![
            in_json(Variant::LedgerKeyNonce),
            in_text(Variant::LedgerKeyContractInstance),
            in_json(Variant::LedgerKeyNonce),
        ]
    );
}

#[test]
fn the_storage_of_an_instance_is_rendered_in_json_alone() {
    let val = ScVal::ContractInstance {
        executable: ContractExecutable::StellarAsset,
        storage: Some(vec![ScMapEntry { key: ScVal::U32(1), val: ScVal::LedgerKeyNonce(2) }]),
    };
    assert_eq!(unexpected_in_text(&val), vec![in_text(Variant::ContractInstance)]);
    assert_eq!(
        unexpected_in_json(&val),
        vec![in_json(Variant::ContractInstance), in_json(Variant::LedgerKeyNonce)]
    );
}

#[test]
fn events_are_noticed_as_far_as_they_decode() {
    let odd = wire(&x::ScVal::LedgerKeyContractInstance);
    let topic = in_text(Variant::LedgerKeyContractInstance);
    let body = in_json(Variant::LedgerKeyContractInstance);
    let whole = raw(vec![odd.clone()], odd.clone());
    assert_eq!(unexpected_in_event(&whole, false), vec![topic, body]);
    let no_body = raw(vec![odd.clone()], "!".to_string());
    assert_eq!(unexpected_in_event(&no_body, false), vec![topic]);
    let no_topics = raw(vec![odd.clone(), "!".to_string()], odd.clone());
    assert!(unexpected_in_event(&no_topics, false).is_empty());
    let mut failed = raw(vec![odd.clone()], odd);
    failed.in_successful_contract_call = false;
    assert!(unexpected_in_event(&failed, true).is_empty());
}

#[test]
fn topics_rendered_one_by_one_are_noticed_up_to_the_first_failure() {
    let odd = wire(&x::ScVal::LedgerKeyContractInstance);
    let topic = in_text(Variant::LedgerKeyContractInstance);
    let body = in_json(Variant::LedgerKeyContractInstance);
    let whole = raw(vec![odd.clone()], odd.clone());
    assert_eq!(unexpected_in_walk(&whole, false), vec![topic, body]);
    let no_body = raw(vec![odd.clone()], "!".to_string());
    assert_eq!(unexpected_in_walk(&no_body, false), vec![topic]);
    let broken = raw(vec![odd.clone(), "!".to_string(), odd.clone()], odd.clone());
    assert_eq!(unexpected_in_walk(&broken, false), vec![topic]);
    let mut failed = raw(vec![odd.clone()], odd.clone());
    failed.in_successful_contract_call = false;
    assert!(unexpected_in_walk(&failed, true).is_empty());
    let mut unknown = raw(vec![odd.clone()], odd);
    unknown.event_type = "other".to_string();
    assert!(unexpected_in_walk(&unknown, true).is_empty());
}

#[test]
fn notices_name_what_they_are_about() {
    assert_eq!(Rendering::Text.as_str(), "scval_to_string");
    assert_eq!(Rendering::Json.as_str(), "scval_to_json");
    assert_eq!(Variant::ContractInstance.as_str(), "ContractInstance");
    assert_eq!(Variant::LedgerKeyContractInstance.as_str(), "LedgerKeyContractInstance");
    assert_eq!(Variant::LedgerKeyNonce.as_str(), "LedgerKeyNonce");
}
