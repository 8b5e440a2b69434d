use base64::engine::general_purpose::STANDARD;
use base64::Engine;
use stellar_xdr::curr as x;
use stellar_xdr::curr::WriteXdr;
use trident::decode::{decode_scval, MAX_SCVAL_BYTES};
use trident::indexer::ledger::encode_key;
use trident::indexer::parser::events::Parser;
use trident::raw::RawEvent;
use trident::scval::{scval_to_string, ScVal};
use trident::scval_json::scval_to_json;

const CASES: usize = 300;

/// A source of bytes that vary and repeat from run to run.
struct Bytes(u64);

impl Bytes {
    fn take(&mut self) -> u8 {
        self.0 = self.0.wrapping_mul(6_364_136_223_846_793_005).wrapping_add(1_442_695_040_888_963_407);
        (self.0 >> 56) as u8
    }

    fn many(&mut self, n: usize) -> Vec<u8> {
        (0..n).map(|_| self.take()).collect()
    }

    fn below(&mut self, n: usize) -> usize {
        (self.take() as usize * 256 + self.take() as usize) % n
    }
}

fn wire(val: &x::ScVal) -> Vec<u8> {
    let mut buf = Vec::new();
    val.write_xdr(&mut x::Limited::new(&mut buf, x::Limits::none())).expect("XDR encode");
    buf
}

fn some_value(source: &mut Bytes) -> x::ScVal {
    let n = 9 + source.below(100);
    let bytes = source.many(n);
    let four = [bytes[1], bytes[2], bytes[3], bytes[4]];
    let eight = [
        bytes[1], bytes[2], bytes[3], bytes[4], bytes[5], bytes[6], bytes[7], bytes[8],
    ];
    match bytes[0] % 8 {
        0 => x::ScVal::Void,
        1 => x::ScVal::Bool(bytes[1] % 2 == 0),
        2 => x::ScVal::U32(u32::from_le_bytes(four)),
        3 => x::ScVal::I32(i32::from_le_bytes(four)),
        4 => x::ScVal::U64(u64::from_le_bytes(eight)),
        5 => x::ScVal::I64(i64::from_le_bytes(eight)),
        6 => x::ScVal::Symbol(
            x::ScSymbol::try_from(String::from_utf8_lossy(&bytes[1..9]).into_owned())
                .unwrap_or_else(|_| x::ScSymbol::try_from("x".to_string()).unwrap()),
        ),
        _ => x::ScVal::Bytes(x::ScBytes(x::BytesM::try_from(bytes[1..].to_vec()).unwrap())),
    }
}

#[test]
fn decode_scval_never_panics_on_arbitrary_xdr() {
    let mut source = Bytes(1);
    for _ in 0..CASES {
        assert!(decode_scval(&STANDARD.encode(wire(&some_value(&mut source)))).is_ok());
    }
}

#[test]
fn decode_scval_never_panics_on_random_bytes() {
    let mut source = Bytes(2);
    for _ in 0..CASES {
        let n = source.below(256);
        let _ = decode_scval(&STANDARD.encode(source.many(n)));
    }
}

#[test]
fn decode_then_scval_to_string_roundtrip() {
    let mut source = Bytes(3);
    for _ in 0..CASES {
        let val = decode_scval(&STANDARD.encode(wire(&some_value(&mut source)))).unwrap();
        let _ = scval_to_json(&val);
        let s = scval_to_string(&val);
        let empty = matches!(&val, ScVal::Void)
            || matches!(&val, ScVal::Bytes(b) if b.is_empty())
            || matches!(&val, ScVal::Symbol(b) if b.is_empty());
        assert!(empty || !s.is_empty(), "nothing rendered for {val:?}");
    }
}

#[test]
fn truncated_valid_xdr_is_a_handled_error() {
    let mut source = Bytes(4);
    for _ in 0..CASES {
        let bytes = wire(&some_value(&mut source));
        let cut = source.below(bytes.len());
        assert!(
            decode_scval(&STANDARD.encode(&bytes[..cut])).is_err(),
            "strict prefix of a valid encoding decoded successfully"
        );
    }
}

#[test]
fn trailing_garbage_after_a_valid_value_is_rejected() {
    let mut source = Bytes(5);
    for _ in 0..CASES {
        let mut bytes = wire(&some_value(&mut source));
        let n = 1 + source.below(31);
        bytes.extend(source.many(n));
        assert!(
            decode_scval(&STANDARD.encode(&bytes)).is_err(),
            "value followed by trailing bytes must be rejected"
        );
    }
}

/// Wire bytes of a vector nested `depth` levels around a number.
fn nested_vec_wire(depth: u32) -> Vec<u8> {
    let mut out = Vec::new();
    for _ in 0..depth {
        out.extend_from_slice(&16u32.to_be_bytes());
        out.extend_from_slice(&1u32.to_be_bytes());
        out.extend_from_slice(&1u32.to_be_bytes());
    }
    out.extend_from_slice(&3u32.to_be_bytes());
    out.extend_from_slice(&7u32.to_be_bytes());
    out
}

#[test]
fn arbitrary_nesting_depth_never_panics() {
    for depth in 1..300 {
        match decode_scval(&STANDARD.encode(nested_vec_wire(depth))) {
            Ok(val) => {
                let _ = scval_to_string(&val);
                let _ = scval_to_json(&val);
            }
            Err(_) => {
                assert!(depth > 100, "host-legal nesting must decode, failed at depth {depth}");
            }
        }
    }
}

#[test]
fn deep_nesting_beyond_the_budget_is_rejected() {
    for depth in (200..2000).step_by(97) {
        assert!(
            decode_scval(&STANDARD.encode(nested_vec_wire(depth))).is_err(),
            "nesting past the budget must be a handled error"
        );
    }
}

#[test]
fn lying_collection_length_prefix_never_panics() {
    let mut source = Bytes(6);
    for tag in 0..24u32 {
        for _ in 0..16 {
            let mut bytes = tag.to_be_bytes().to_vec();
            bytes.extend(source.many(4));
            bytes.extend_from_slice(&[0xAA; 8]);
            let _ = decode_scval(&STANDARD.encode(&bytes));
        }
    }
}

#[test]
fn parse_event_with_projection_never_panics() {
    let mut source = Bytes(7);
    let kinds = ["contract", "system", "diagnostic", "odd"];
    let ledgers = ["500", "", "x!"];
    for i in 0..CASES {
        let encoded = |source: &mut Bytes| {
            if source.take() % 2 == 0 {
                STANDARD.encode(wire(&some_value(source)))
            } else {
                let n = source.below(64);
                STANDARD.encode(source.many(n))
            }
        };
        let topics = source.below(6);
        let raw = RawEvent {
            event_type: kinds[source.below(4)].to_string(),
            ledger: ledgers[source.below(3)].to_string(),
            ledger_closed_at: "2024-06-01T00:00:00Z".to_string(),
            contract_id: None,
            id: "some-id".to_string(),
            paging_token: None,
            tx_hash: "some-hash".to_string(),
            operation_index: None,
            topic: (0..topics).map(|_| encoded(&mut source)).collect(),
            value: encoded(&mut source),
            in_successful_contract_call: i % 5 != 0,
        };
        let _ = Parser::new(true).parse_event_with_projection(&raw);
        let _ = Parser::new(false).parse_event_with_projection(&raw);
    }
}

#[test]
fn the_longest_encoding_passes_the_text_limit() {
    let wire_of = |n: usize| wire(&x::ScVal::Bytes(x::ScBytes(vec![7u8; n].try_into().unwrap())));
    let longest = wire_of(MAX_SCVAL_BYTES - 8);
    assert_eq!(longest.len(), MAX_SCVAL_BYTES);
    let text = encode_key(&longest);
    assert_eq!(text.len(), 4 * ((longest.len() + 2) / 3));
    assert!(decode_scval(&text).is_ok());
    assert!(decode_scval(&encode_key(&wire_of(MAX_SCVAL_BYTES - 4))).is_err());
    assert_eq!(encode_key(&[]), "");
    assert_eq!(encode_key(&[0]), "AA==");
    assert_eq!(encode_key(&[0, 0, 0, 0]), "AAAAAA==");
}
