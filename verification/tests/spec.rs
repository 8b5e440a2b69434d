use stellar_xdr::curr as x;
use stellar_xdr::curr::WriteXdr;
use trident::indexer::spec::contract::{parse_spec_entries, spec_functions};
use trident::indexer::spec::interfaces::detect_interfaces;
use trident::indexer::spec::wasm::{extract_custom_section, read_leb128_u32};

/// The functions of a SEP-41 token contract.
const SEP41_REFERENCE: &[&str] = &[
    "initialize",
    "mint",
    "set_admin",
    "admin",
    "allowance",
    "approve",
    "balance",
    "transfer",
    "transfer_from",
    "burn",
    "burn_from",
    "decimals",
    "name",
    "symbol",
];

const NFT_REFERENCE: &[&str] = &[
    "balance",
    "owner_of",
    "transfer",
    "approve",
    "get_approved",
    "set_approval_for_all",
    "mint",
];

#[test]
fn classifies_a_sep41_token_contract() {
    let detected = detect_interfaces(SEP41_REFERENCE);
    assert_eq!(detected.contract_type, "token");
    assert!(detected.interfaces.contains(&"sep41_token".to_string()));
    assert!(!detected.interfaces.contains(&"nft".to_string()));
}

#[test]
fn classifies_an_nft_contract() {
    let detected = detect_interfaces(NFT_REFERENCE);
    assert_eq!(detected.contract_type, "nft");
    assert!(detected.interfaces.contains(&"nft".to_string()));
    assert!(!detected.interfaces.contains(&"sep41_token".to_string()));
}

#[test]
fn unknown_functions_classify_as_custom() {
    let detected = detect_interfaces(&["swap", "add_liquidity", "remove_liquidity"]);
    assert_eq!(detected.contract_type, "custom");
    assert!(detected.interfaces.is_empty());
}

#[test]
fn partial_token_surface_does_not_match() {
    // Missing `transfer_from`/`burn` — not the full mandatory SEP-41 surface.
    let functions = &["balance", "transfer", "name", "symbol", "decimals"];
    let detected = detect_interfaces(functions);
    assert_eq!(detected.contract_type, "custom");
    assert!(detected.interfaces.is_empty());
}

#[test]
fn empty_spec_classifies_as_custom() {
    let detected = detect_interfaces(&[]);
    assert_eq!(detected.contract_type, "custom");
    assert!(detected.interfaces.is_empty());
}

/// Build a minimal valid WASM module (magic + version, no sections).
fn empty_wasm() -> Vec<u8> {
    vec![0x00, 0x61, 0x73, 0x6d, 0x01, 0x00, 0x00, 0x00]
}

#[test]
fn extract_custom_section_returns_none_when_absent() {
    assert!(extract_custom_section(&empty_wasm(), "contractspecv0").is_none());
}

#[test]
fn extract_custom_section_returns_none_for_non_wasm_bytes() {
    assert!(extract_custom_section(b"not wasm", "contractspecv0").is_none());
}

/// Encode a WASM custom section (id 0) with the given name and payload,
/// appended after a minimal module header.
fn wasm_with_custom_section(name: &str, payload: &[u8]) -> Vec<u8> {
    let mut section = Vec::new();
    write_leb128_u32(&mut section, name.len() as u32);
    section.extend_from_slice(name.as_bytes());
    section.extend_from_slice(payload);

    let mut wasm = empty_wasm();
    wasm.push(0); // custom section id
    write_leb128_u32(&mut wasm, section.len() as u32);
    wasm.extend_from_slice(&section);
    wasm
}

fn write_leb128_u32(buf: &mut Vec<u8>, mut value: u32) {
    loop {
        let byte = (value & 0x7f) as u8;
        value >>= 7;
        if value == 0 {
            buf.push(byte);
            break;
        }
        buf.push(byte | 0x80);
    }
}

#[test]
fn extract_custom_section_finds_named_payload() {
    let wasm = wasm_with_custom_section("contractspecv0", &[1, 2, 3]);
    let section = extract_custom_section(&wasm, "contractspecv0").expect("section present");
    assert_eq!(section, &[1, 2, 3]);
}

#[test]
fn extract_custom_section_ignores_other_names() {
    let wasm = wasm_with_custom_section("name", &[9, 9]);
    assert!(extract_custom_section(&wasm, "contractspecv0").is_none());
}

#[test]
fn parse_spec_entries_decodes_a_function_entry() {
    let entry = x::ScSpecEntry::FunctionV0(x::ScSpecFunctionV0 {
        doc: x::StringM::default(),
        name: x::ScSymbol::try_from("transfer".to_string()).unwrap(),
        inputs: x::VecM::default(),
        outputs: x::VecM::default(),
    });
    let mut buf = Vec::new();
    entry
        .write_xdr(&mut x::Limited::new(&mut buf, x::Limits::none()))
        .unwrap();

    let wasm = wasm_with_custom_section("contractspecv0", &buf);
    let entries = parse_spec_entries(&wasm);
    let functions = spec_functions(&entries);

    assert_eq!(functions.len(), 1);
    assert_eq!(functions[0].name, "transfer");
}

#[test]
fn parse_spec_entries_empty_when_no_section() {
    assert!(parse_spec_entries(&empty_wasm()).is_empty());
}

#[test]
fn numbers_are_read_where_there_are_any() {
    let mut pos = 0;
    assert_eq!(read_leb128_u32(&[0xe5, 0x8e, 0x26], &mut pos), Some(624_485));
    assert_eq!(pos, 3);
    assert_eq!(read_leb128_u32(&[0xe5, 0x8e, 0x26], &mut pos), None);
    assert_eq!(pos, 3);
    pos = 9;
    assert_eq!(read_leb128_u32(&[1], &mut pos), None);
    assert_eq!(pos, 9);
    pos = 0;
    assert_eq!(read_leb128_u32(&[0x80; 6], &mut pos), None);
    assert_eq!(pos, 5);
}

fn function_of_type(levels: u32) -> Vec<u8> {
    let mut of = x::ScSpecTypeDef::Bool;
    for _ in 0..levels {
        of = x::ScSpecTypeDef::Option(Box::new(x::ScSpecTypeOption { value_type: Box::new(of) }));
    }
    let entry = x::ScSpecEntry::FunctionV0(x::ScSpecFunctionV0 {
        doc: x::StringM::default(),
        name: x::ScSymbol::try_from("deep".to_string()).unwrap(),
        inputs: x::VecM::default(),
        outputs: x::VecM::try_from(vec![of]).unwrap(),
    });
    let mut buf = Vec::new();
    entry.write_xdr(&mut x::Limited::new(&mut buf, x::Limits::none())).unwrap();
    wasm_with_custom_section("contractspecv0", &buf)
}

#[test]
fn types_may_nest_only_so_deep() {
    assert_eq!(parse_spec_entries(&function_of_type(50)).len(), 1);
    assert!(parse_spec_entries(&function_of_type(600)).is_empty());
}
