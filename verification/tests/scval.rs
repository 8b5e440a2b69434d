use base64::engine::general_purpose::STANDARD;
use base64::Engine;
use stellar_xdr::curr as x;
use stellar_xdr::curr::WriteXdr;
use trident::decode::{decode_scval, MAX_SCVAL_B64_LEN};
use trident::errors::TridentError;
use trident::json::{Json, JsonMember};
use trident::scval::{
    scaddress_to_string, scval_to_string, ContractExecutable, ScAddress, ScError, ScErrorCode,
    ScMapEntry, ScVal,
};
use trident::scval_json::scval_to_json;

fn wire(val: &x::ScVal) -> Vec<u8> {
    let mut buf = Vec::new();
    val.write_xdr(&mut x::Limited::new(&mut buf, x::Limits::none())).expect("encode");
    buf
}

fn xdr_b64(val: &x::ScVal) -> String {
    STANDARD.encode(wire(val))
}

/// Encodes a value and decodes it back, so that a test exercises real XDR bytes.
fn roundtrip(val: &x::ScVal) -> ScVal {
    decode_scval(&xdr_b64(val)).expect("decode test ScVal")
}

fn text(s: &str) -> Json {
    Json::String(s.to_string())
}

fn object(members: Vec<(&str, Json)>) -> Json {
    Json::Object(
        members
            .into_iter()
            .map(|(name, value)| JsonMember { name: name.to_string(), value })
            .collect(),
    )
}

fn symbol(s: &str) -> ScVal {
    ScVal::Symbol(s.as_bytes().to_vec())
}

fn xsymbol(s: &str) -> x::ScVal {
    x::ScVal::Symbol(x::ScSymbol::try_from(s.to_string()).unwrap())
}

#[test]
fn contract_instance_decodes_to_structured_forms_not_debug_string() {
    let storage = x::ScMap(
        vec![x::ScMapEntry { key: xsymbol("admin"), val: x::ScVal::U32(7) }].try_into().expect("map"),
    );
    let val = x::ScVal::ContractInstance(x::ScContractInstance {
        executable: x::ContractExecutable::Wasm(x::Hash([0xAB; 32])),
        storage: Some(storage),
    });
    let val = roundtrip(&val);
    let json = scval_to_json(&val);
    let executable = json.get("executable").unwrap();
    assert_eq!(executable.get("type").unwrap(), &text("wasm"));
    assert_eq!(executable.get("wasm_hash").unwrap(), &text(&hex::encode([0xAB; 32])));
    assert_eq!(json.get("storage").unwrap().get("admin").unwrap(), &Json::Number(7));
    let s = scval_to_string(&val);
    assert_eq!(s, format!("contract_instance(wasm:{})", hex::encode([0xAB; 32])));
    assert!(!s.contains("ScContractInstance"), "Debug leak: {s}");
}

#[test]
fn ledger_key_variants_decode_to_documented_shapes() {
    let nonce = roundtrip(&x::ScVal::LedgerKeyNonce(x::ScNonceKey { nonce: i64::MIN }));
    let json = scval_to_json(&nonce);
    assert_eq!(json.get("nonce").unwrap(), &text(&i64::MIN.to_string()));
    assert_eq!(scval_to_string(&nonce), i64::MIN.to_string());
    let json = scval_to_json(&roundtrip(&x::ScVal::LedgerKeyContractInstance));
    assert_eq!(json, text("ledger_key_contract_instance"));
}

#[test]
fn containers_in_topic_position_render_compactly() {
    let vec_val = x::ScVal::Vec(Some(x::ScVec(
        vec![x::ScVal::U32(1), xsymbol("x")].try_into().expect("vec"),
    )));
    assert_eq!(scval_to_string(&roundtrip(&vec_val)), "[1,x]");
}

#[test]
fn every_scaddress_form_renders_as_a_strkey() {
    let muxed = ScAddress::MuxedAccount { id: 42, ed25519: [7; 32] };
    let rendered = scaddress_to_string(&muxed);
    assert!(rendered.starts_with('M'), "muxed strkey, got {rendered}");
    let cb = ScAddress::ClaimableBalance([9; 32]);
    let rendered = scaddress_to_string(&cb);
    assert!(rendered.starts_with('B'), "claimable-balance strkey, got {rendered}");
    let lp = ScAddress::LiquidityPool([3; 32]);
    let rendered = scaddress_to_string(&lp);
    assert!(rendered.starts_with('L'), "liquidity-pool strkey, got {rendered}");

    let wires = [
        x::ScAddress::MuxedAccount(x::MuxedEd25519Account { id: 42, ed25519: x::Uint256([7; 32]) }),
        x::ScAddress::ClaimableBalance(x::ClaimableBalanceId::ClaimableBalanceIdTypeV0(x::Hash(
            [9; 32],
        ))),
        x::ScAddress::LiquidityPool(x::PoolId(x::Hash([3; 32]))),
    ];
    for (addr, wired) in [muxed, cb, lp].iter().zip(wires) {
        let s = scaddress_to_string(addr);
        assert!(!s.contains("ScAddress"), "Debug leak: {s}");
        let json = scval_to_json(&roundtrip(&x::ScVal::Address(wired)));
        assert_eq!(json, text(&s));
    }
}

#[test]
fn account_and_contract_addresses_render_as_their_strkeys() {
    assert_eq!(
        scaddress_to_string(&ScAddress::Account([0; 32])),
        "GAAAAAAAAAAAAAAAAAAAAAAAAAAAAAAAAAAAAAAAAAAAAAAAAAAAAWHF"
    );
    assert_eq!(
        scaddress_to_string(&ScAddress::Contract([0; 32])),
        "CAAAAAAAAAAAAAAAAAAAAAAAAAAAAAAAAAAAAAAAAAAAAAAAAAAABSC4"
    );
    let wired = x::ScVal::Address(x::ScAddress::Account(x::AccountId(
        x::PublicKey::PublicKeyTypeEd25519(x::Uint256([0; 32])),
    )));
    assert_eq!(roundtrip(&wired), ScVal::Address(ScAddress::Account([0; 32])));
    let wired = x::ScVal::Address(x::ScAddress::Contract(x::ContractId(x::Hash([5; 32]))));
    assert_eq!(roundtrip(&wired), ScVal::Address(ScAddress::Contract([5; 32])));
}

fn nested_vec_wire(depth: u32) -> Vec<u8> {
    let mut out = Vec::new();
    for _ in 0..depth {
        out.extend_from_slice(&16u32.to_be_bytes());
        out.extend_from_slice(&1u32.to_be_bytes());
        out.extend_from_slice(&1u32.to_be_bytes());
    }
    out.extend_from_slice(&3u32.to_be_bytes());
    out.extend_from_slice(&7u32.to_be_bytes());
    out
}

fn decode_wire(wire: &[u8]) -> Result<ScVal, TridentError> {
    decode_scval(&STANDARD.encode(wire))
}

#[test]
fn plausible_nesting_decodes_and_renders() {
    let val = decode_wire(&nested_vec_wire(100)).expect("host-legal nesting must decode");
    let s = scval_to_string(&val);
    assert!(s.starts_with("[[[") && s.contains('7'));
    let _ = scval_to_json(&val);
}

#[test]
fn hostile_nesting_depth_errors_instead_of_overflowing_the_stack() {
    let result = decode_wire(&nested_vec_wire(50_000));
    assert!(result.is_err(), "hostile nesting must be rejected");
}

#[test]
fn trailing_bytes_after_the_value_are_rejected() {
    let mut bytes = wire(&x::ScVal::U32(7));
    bytes.extend_from_slice(&[0xDE, 0xAD]);
    let err = decode_wire(&bytes).expect_err("trailing bytes must be rejected");
    assert!(err.to_string().contains("trailing"), "unexpected error: {}", err.to_string());
    assert_eq!(
        err.to_string(),
        "Parse error: trailing bytes after ScVal: consumed 8 of 10"
    );
}

#[test]
fn lying_length_prefix_is_a_handled_error() {
    let mut wire = 13u32.to_be_bytes().to_vec();
    wire.extend_from_slice(&u32::MAX.to_be_bytes());
    wire.extend_from_slice(&[0xAA; 4]);
    assert!(decode_wire(&wire).is_err());
}

#[test]
fn oversized_input_is_rejected_before_base64_decode() {
    let huge = "A".repeat(MAX_SCVAL_B64_LEN + 1);
    let err = decode_scval(&huge).expect_err("oversized input must be rejected");
    assert!(err.to_string().contains("too large"), "unexpected error: {}", err.to_string());
}

#[test]
fn empty_input_is_a_handled_error() {
    assert!(decode_scval("").is_err());
}

#[test]
fn u256_extremes_render_exact_decimals() {
    let max = x::ScVal::U256(x::UInt256Parts {
        hi_hi: u64::MAX,
        hi_lo: u64::MAX,
        lo_hi: u64::MAX,
        lo_lo: u64::MAX,
    });
    assert_eq!(
        scval_to_string(&roundtrip(&max)),
        "115792089237316195423570985008687907853269984665640564039457584007913129639935"
    );
    let min_i256 =
        x::ScVal::I256(x::Int256Parts { hi_hi: i64::MIN, hi_lo: 0, lo_hi: 0, lo_lo: 0 });
    assert_eq!(
        scval_to_string(&roundtrip(&min_i256)),
        "-57896044618658097711785492504343953926634992332820282019728792003956564819968"
    );
}

#[test]
fn scval_to_string_bool_true() {
    assert_eq!(scval_to_string(&ScVal::Bool(true)), "true");
}

#[test]
fn scval_to_string_bool_false() {
    assert_eq!(scval_to_string(&ScVal::Bool(false)), "false");
}

#[test]
fn scval_to_string_string() {
    assert_eq!(scval_to_string(&ScVal::String(b"hello".to_vec())), "hello");
}

#[test]
fn scval_to_string_u32() {
    assert_eq!(scval_to_string(&ScVal::U32(42)), "42");
}

#[test]
fn scval_to_string_i32() {
    assert_eq!(scval_to_string(&ScVal::I32(-7)), "-7");
}

#[test]
fn scval_to_string_u64() {
    assert_eq!(scval_to_string(&ScVal::U64(u64::MAX)), "18446744073709551615");
}

#[test]
fn scval_to_string_i64() {
    assert_eq!(scval_to_string(&ScVal::I64(i64::MIN)), "-9223372036854775808");
}

#[test]
fn scval_to_string_u128_uses_full_width() {
    assert_eq!(scval_to_string(&ScVal::U128 { hi: 1, lo: 0 }), "18446744073709551616");
}

#[test]
fn scval_to_string_u128_max() {
    let val = ScVal::U128 { hi: u64::MAX, lo: u64::MAX };
    assert_eq!(scval_to_string(&val), u128::MAX.to_string());
}

#[test]
fn scval_to_string_i128_negative() {
    assert_eq!(scval_to_string(&ScVal::I128 { hi: -1, lo: u64::MAX }), "-1");
}

#[test]
fn scval_to_string_i128_min() {
    let val = ScVal::I128 { hi: i64::MIN, lo: 0 };
    assert_eq!(scval_to_string(&val), i128::MIN.to_string());
}

#[test]
fn u256_decodes_beyond_128_bits() {
    let val = ScVal::U256 { hi_hi: 1, hi_lo: 0, lo_hi: 0, lo_lo: 0 };
    assert_eq!(
        scval_to_string(&val),
        "6277101735386680763835789423207666416102355444464034512896"
    );
}

#[test]
fn u256_max_is_exact() {
    let val =
        ScVal::U256 { hi_hi: u64::MAX, hi_lo: u64::MAX, lo_hi: u64::MAX, lo_lo: u64::MAX };
    assert_eq!(
        scval_to_string(&val),
        "115792089237316195423570985008687907853269984665640564039457584007913129639935"
    );
}

#[test]
fn u256_small_value_round_trips() {
    let val = ScVal::U256 { hi_hi: 0, hi_lo: 0, lo_hi: 0, lo_lo: 12345 };
    assert_eq!(scval_to_string(&val), "12345");
    let zero = ScVal::U256 { hi_hi: 0, hi_lo: 0, lo_hi: 0, lo_lo: 0 };
    assert_eq!(scval_to_string(&zero), "0");
}

#[test]
fn i256_negative_one() {
    let val = ScVal::I256 { hi_hi: -1, hi_lo: u64::MAX, lo_hi: u64::MAX, lo_lo: u64::MAX };
    assert_eq!(scval_to_string(&val), "-1");
}

#[test]
fn i256_min_is_exact() {
    let val = ScVal::I256 { hi_hi: i64::MIN, hi_lo: 0, lo_hi: 0, lo_lo: 0 };
    assert_eq!(
        scval_to_string(&val),
        "-57896044618658097711785492504343953926634992332820282019728792003956564819968"
    );
}

#[test]
fn scval_to_string_timepoint() {
    assert_eq!(scval_to_string(&ScVal::Timepoint(1_700_000_000)), "1700000000");
}

#[test]
fn scval_to_string_duration() {
    assert_eq!(scval_to_string(&ScVal::Duration(86_400)), "86400");
}

#[test]
fn scval_to_json_timepoint_and_duration_are_strings() {
    assert_eq!(scval_to_json(&ScVal::Timepoint(u64::MAX)), text("18446744073709551615"));
    assert_eq!(scval_to_json(&ScVal::Duration(u64::MAX)), text("18446744073709551615"));
}

#[test]
fn timepoint_does_not_count_as_unhandled_variant() {
    let rendered = scval_to_string(&ScVal::Timepoint(1));
    assert!(!rendered.contains("Timepoint"), "rendered via the debug catch-all: {rendered}");
}

#[test]
fn scval_to_json_bytes_is_hex_not_base64() {
    let val = ScVal::Bytes(vec![0xDE, 0xAD, 0xBE, 0xEF]);
    assert_eq!(scval_to_json(&val), text("deadbeef"));
}

#[test]
fn scval_to_string_bytes() {
    assert_eq!(scval_to_string(&ScVal::Bytes(vec![0xDE, 0xAD, 0xBE, 0xEF])), "deadbeef");
}

#[test]
fn scval_to_string_vec_some() {
    let s = scval_to_string(&ScVal::Vec(Some(vec![ScVal::U32(1), ScVal::U32(2)])));
    assert!(s.contains('1'));
    assert!(s.contains('2'));
    assert_eq!(s, "[1,2]");
}

#[test]
fn scval_to_string_vec_none() {
    assert_eq!(scval_to_string(&ScVal::Vec(None)), "Vec(None)");
    assert_eq!(scval_to_string(&ScVal::Vec(Some(vec![]))), "[]");
}

#[test]
fn maps_render_as_key_value_pairs() {
    let val = ScVal::Mapping(Some(vec![
        ScMapEntry { key: symbol("a"), val: ScVal::U32(1) },
        ScMapEntry { key: symbol("b"), val: ScVal::Void },
    ]));
    assert_eq!(scval_to_string(&val), "{a:1,b:void}");
    assert_eq!(scval_to_string(&ScVal::Mapping(Some(vec![]))), "{}");
    assert_eq!(scval_to_string(&ScVal::Mapping(None)), "Map(None)");
}

#[test]
fn the_later_of_two_keys_with_the_same_text_counts() {
    let val = ScVal::Mapping(Some(vec![
        ScMapEntry { key: symbol("1"), val: ScVal::U32(10) },
        ScMapEntry { key: ScVal::U32(1), val: ScVal::U32(20) },
    ]));
    assert_eq!(scval_to_json(&val).get("1").unwrap(), &Json::Number(20));
}

#[test]
fn invalid_utf8_is_replaced() {
    assert_eq!(scval_to_string(&ScVal::Symbol(vec![b'a', 0xFF])), "a\u{FFFD}");
}

#[test]
fn scval_to_json_bool() {
    assert_eq!(scval_to_json(&ScVal::Bool(true)), Json::Bool(true));
    assert_eq!(scval_to_json(&ScVal::Bool(false)), Json::Bool(false));
}

#[test]
fn scval_to_json_string() {
    assert_eq!(scval_to_json(&ScVal::String(b"world".to_vec())), text("world"));
}

#[test]
fn scval_to_json_u32() {
    assert_eq!(scval_to_json(&ScVal::U32(99)), Json::Number(99));
}

#[test]
fn scval_to_json_i32() {
    assert_eq!(scval_to_json(&ScVal::I32(-3)), Json::Number(-3));
}

#[test]
fn scval_to_json_u64() {
    assert_eq!(scval_to_json(&ScVal::U64(123)), Json::Number(123));
}

#[test]
fn scval_to_json_i64() {
    assert_eq!(scval_to_json(&ScVal::I64(-456)), Json::Number(-456));
}

#[test]
fn scval_to_json_bytes() {
    assert_eq!(scval_to_json(&ScVal::Bytes(vec![0xCA, 0xFE])), text("cafe"));
}

#[test]
fn scval_to_json_vec_some() {
    let json = scval_to_json(&ScVal::Vec(Some(vec![ScVal::U32(10), ScVal::U32(20)])));
    let arr = json.as_array().expect("Vec(Some) must be a JSON array");
    assert_eq!(arr.len(), 2);
    assert_eq!(arr[0], Json::Number(10));
    assert_eq!(arr[1], Json::Number(20));
}

#[test]
fn scval_to_json_vec_none() {
    let json = scval_to_json(&ScVal::Vec(None));
    let arr = json.as_array().expect("Vec(None) must be an empty JSON array");
    assert!(arr.is_empty());
}

#[test]
fn scval_to_json_void() {
    assert_eq!(scval_to_json(&ScVal::Void), Json::Null);
}

#[test]
fn wide_integers_become_strings_only_beyond_64_bits() {
    assert_eq!(scval_to_json(&ScVal::U128 { hi: 0, lo: u64::MAX }), Json::Number(u64::MAX as i128));
    assert_eq!(scval_to_json(&ScVal::U128 { hi: 1, lo: 0 }), text("18446744073709551616"));
    assert_eq!(
        scval_to_json(&ScVal::I128 { hi: 0, lo: i64::MAX as u64 }),
        Json::Number(i64::MAX as i128)
    );
    assert_eq!(
        scval_to_json(&ScVal::I128 { hi: 0, lo: 1 << 63 }),
        text("9223372036854775808")
    );
}

fn sample_contract_instance_wasm() -> ScVal {
    ScVal::ContractInstance { executable: ContractExecutable::Wasm([0xAB; 32]), storage: None }
}

fn sample_contract_instance_stellar_asset_with_storage() -> ScVal {
    ScVal::ContractInstance {
        executable: ContractExecutable::StellarAsset,
        storage: Some(vec![ScMapEntry { key: symbol("decimals"), val: ScVal::U32(7) }]),
    }
}

#[test]
fn every_scval_variant_has_a_documented_json_shape() {
    let cases: Vec<(&str, ScVal, Json)> = vec![
        ("Bool", ScVal::Bool(true), Json::Bool(true)),
        ("Void", ScVal::Void, Json::Null),
        (
            "Error",
            ScVal::Error(ScError::Contract(9)),
            text(&format!("{:?}", x::ScError::Contract(9))),
        ),
        ("U32", ScVal::U32(42), Json::Number(42)),
        ("I32", ScVal::I32(-42), Json::Number(-42)),
        ("U64", ScVal::U64(42), Json::Number(42)),
        ("I64", ScVal::I64(-42), Json::Number(-42)),
        ("Timepoint", ScVal::Timepoint(1_700_000_000), text("1700000000")),
        ("Duration", ScVal::Duration(60), text("60")),
        ("U128", ScVal::U128 { hi: 0, lo: 100 }, Json::Number(100)),
        ("I128", ScVal::I128 { hi: -1, lo: u64::MAX }, Json::Number(-1)),
        ("U256", ScVal::U256 { hi_hi: 0, hi_lo: 0, lo_hi: 0, lo_lo: 5 }, text("5")),
        ("I256", ScVal::I256 { hi_hi: 0, hi_lo: 0, lo_hi: 0, lo_lo: 5 }, text("5")),
        ("Bytes", ScVal::Bytes(vec![0xDE, 0xAD]), text("dead")),
        ("String", ScVal::String(b"hi".to_vec()), text("hi")),
        ("Symbol", symbol("sym"), text("sym")),
        ("Vec(Some)", ScVal::Vec(Some(vec![ScVal::U32(1)])), Json::Array(vec![Json::Number(1)])),
        ("Vec(None)", ScVal::Vec(None), Json::Array(vec![])),
        (
            "Map(Some)",
            ScVal::Mapping(Some(vec![ScMapEntry { key: symbol("k"), val: ScVal::U32(1) }])),
            object(vec![("k", Json::Number(1))]),
        ),
        ("Map(None)", ScVal::Mapping(None), object(vec![])),
        (
            "Address",
            ScVal::Address(ScAddress::Contract([0u8; 32])),
            text(&scaddress_to_string(&ScAddress::Contract([0u8; 32]))),
        ),
        (
            "ContractInstance(Wasm)",
            sample_contract_instance_wasm(),
            object(vec![
                (
                    "executable",
                    object(vec![
                        ("type", text("wasm")),
                        ("wasm_hash", text(&hex::encode([0xAB; 32]))),
                    ]),
                ),
                ("storage", Json::Null),
            ]),
        ),
        (
            "ContractInstance(StellarAsset+storage)",
            sample_contract_instance_stellar_asset_with_storage(),
            object(vec![
                ("executable", object(vec![("type", text("stellar_asset"))])),
                ("storage", object(vec![("decimals", Json::Number(7))])),
            ]),
        ),
        (
            "LedgerKeyContractInstance",
            ScVal::LedgerKeyContractInstance,
            text("ledger_key_contract_instance"),
        ),
        ("LedgerKeyNonce", ScVal::LedgerKeyNonce(99), object(vec![("nonce", text("99"))])),
    ];
    for (name, val, expected_json) in cases {
        let json = scval_to_json(&val);
        assert_eq!(json, expected_json, "unexpected JSON shape for {name}");
        let _ = scval_to_string(&val);
    }
}

#[test]
fn every_variant_survives_the_wire() {
    let cases: Vec<(x::ScVal, ScVal)> = vec![
        (x::ScVal::Bool(true), ScVal::Bool(true)),
        (x::ScVal::Void, ScVal::Void),
        (x::ScVal::U32(1), ScVal::U32(1)),
        (x::ScVal::I32(-1), ScVal::I32(-1)),
        (x::ScVal::U64(2), ScVal::U64(2)),
        (x::ScVal::I64(-2), ScVal::I64(-2)),
        (x::ScVal::Timepoint(x::TimePoint(3)), ScVal::Timepoint(3)),
        (x::ScVal::Duration(x::Duration(4)), ScVal::Duration(4)),
        (x::ScVal::U128(x::UInt128Parts { hi: 5, lo: 6 }), ScVal::U128 { hi: 5, lo: 6 }),
        (x::ScVal::I128(x::Int128Parts { hi: -5, lo: 6 }), ScVal::I128 { hi: -5, lo: 6 }),
        (
            x::ScVal::U256(x::UInt256Parts { hi_hi: 1, hi_lo: 2, lo_hi: 3, lo_lo: 4 }),
            ScVal::U256 { hi_hi: 1, hi_lo: 2, lo_hi: 3, lo_lo: 4 },
        ),
        (
            x::ScVal::I256(x::Int256Parts { hi_hi: -1, hi_lo: 2, lo_hi: 3, lo_lo: 4 }),
            ScVal::I256 { hi_hi: -1, hi_lo: 2, lo_hi: 3, lo_lo: 4 },
        ),
        (
            x::ScVal::Bytes(x::ScBytes(vec![1, 2].try_into().unwrap())),
            ScVal::Bytes(vec![1, 2]),
        ),
        (
            x::ScVal::String(x::ScString(b"hi".to_vec().try_into().unwrap())),
            ScVal::String(b"hi".to_vec()),
        ),
        (xsymbol("sym"), symbol("sym")),
        (x::ScVal::Vec(None), ScVal::Vec(None)),
        (x::ScVal::Map(None), ScVal::Mapping(None)),
        (
            x::ScVal::Map(Some(x::ScMap(
                vec![x::ScMapEntry { key: xsymbol("k"), val: x::ScVal::U32(1) }].try_into().unwrap(),
            ))),
            ScVal::Mapping(Some(vec![ScMapEntry { key: symbol("k"), val: ScVal::U32(1) }])),
        ),
        (
            x::ScVal::ContractInstance(x::ScContractInstance {
                executable: x::ContractExecutable::StellarAsset,
                storage: None,
            }),
            ScVal::ContractInstance { executable: ContractExecutable::StellarAsset, storage: None },
        ),
    ];
    for (wired, expected) in cases {
        assert_eq!(roundtrip(&wired), expected);
    }
}

#[test]
fn every_error_value_renders_as_its_kind_and_reason() {
    let codes = [
        (x::ScErrorCode::ArithDomain, ScErrorCode::ArithDomain),
        (x::ScErrorCode::IndexBounds, ScErrorCode::IndexBounds),
        (x::ScErrorCode::InvalidInput, ScErrorCode::InvalidInput),
        (x::ScErrorCode::MissingValue, ScErrorCode::MissingValue),
        (x::ScErrorCode::ExistingValue, ScErrorCode::ExistingValue),
        (x::ScErrorCode::ExceededLimit, ScErrorCode::ExceededLimit),
        (x::ScErrorCode::InvalidAction, ScErrorCode::InvalidAction),
        (x::ScErrorCode::InternalError, ScErrorCode::InternalError),
        (x::ScErrorCode::UnexpectedType, ScErrorCode::UnexpectedType),
        (x::ScErrorCode::UnexpectedSize, ScErrorCode::UnexpectedSize),
    ];
    for (wired, code) in codes {
        let pairs = [
            (x::ScError::Contract(7), ScError::Contract(7)),
            (x::ScError::WasmVm(wired), ScError::WasmVm(code)),
            (x::ScError::Context(wired), ScError::Context(code)),
            (x::ScError::Storage(wired), ScError::Storage(code)),
            (x::ScError::Object(wired), ScError::Object(code)),
            (x::ScError::Crypto(wired), ScError::Crypto(code)),
            (x::ScError::Events(wired), ScError::Events(code)),
            (x::ScError::Budget(wired), ScError::Budget(code)),
            (x::ScError::Value(wired), ScError::Value(code)),
            (x::ScError::Auth(wired), ScError::Auth(code)),
        ];
        for (wired, own) in pairs {
            let rendered = format!("{wired:?}");
            let val = roundtrip(&x::ScVal::Error(wired));
            assert_eq!(val, ScVal::Error(own));
            assert_eq!(scval_to_string(&val), rendered);
        }
    }
}

#[test]
fn contract_instance_string_repr_names_the_executable_kind() {
    assert!(scval_to_string(&sample_contract_instance_wasm()).contains("wasm"));
    assert!(scval_to_string(&sample_contract_instance_stellar_asset_with_storage())
        .contains("stellar_asset"));
}

#[test]
fn ledger_key_variants_have_stable_string_repr() {
    assert_eq!(
        scval_to_string(&ScVal::LedgerKeyContractInstance),
        "ledger_key_contract_instance"
    );
    assert_eq!(scval_to_string(&ScVal::LedgerKeyNonce(99)), "99");
}

#[test]
fn nested_map_inside_vec_inside_contract_instance_storage_decodes_recursively() {
    let inner_map =
        ScVal::Mapping(Some(vec![ScMapEntry { key: symbol("inner"), val: ScVal::I32(-1) }]));
    let vec_of_maps = ScVal::Vec(Some(vec![inner_map]));
    let val = ScVal::ContractInstance {
        executable: ContractExecutable::StellarAsset,
        storage: Some(vec![ScMapEntry { key: symbol("items"), val: vec_of_maps }]),
    };
    let json = scval_to_json(&val);
    let items = json.get("storage").unwrap().get("items").unwrap().as_array().unwrap();
    assert_eq!(items[0].get("inner").unwrap(), &Json::Number(-1));
}

#[test]
fn decode_scval_round_trip() {
    let decoded = decode_scval(&xdr_b64(&x::ScVal::U64(42))).unwrap();
    assert_eq!(scval_to_string(&decoded), "42");
}

#[test]
fn decode_scval_rejects_garbage() {
    assert!(decode_scval("not-valid-base64!!!").is_err());
    let err = decode_scval("not-valid-base64!!!").unwrap_err().to_string();
    assert!(err.starts_with("Parse error: base64 decode: "), "got {err}");
    let err = decode_scval("AAAA").unwrap_err().to_string();
    assert!(err.starts_with("Parse error: XDR decode ScVal: "), "got {err}");
}
