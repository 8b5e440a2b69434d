use base64::engine::general_purpose::STANDARD;
use base64::Engine;
use stellar_xdr::curr as x;
use stellar_xdr::curr::{ReadXdr, WriteXdr};
use trident::indexer::ledger::{balance_key, code_key, encode_key, instance_key};
use trident::indexer::rpc::client::LedgerEntryResult;
use trident::indexer::storage::{balance_keys, balance_observations};
use trident::json::Json;

const TEST_CONTRACT: &str = "CAAAAAAAAAAAAAAAAAAAAAAAAAAAAAAAAAAAAAAAAAAAAAAAAAAAD2KM";
const TEST_HOLDER_A: &str = "GAAAAAAAAAAAAAAAAAAAAAAAAAAAAAAAAAAAAAAAAAAAAAAAAAAAAWHF";
const TEST_HOLDER_B: &str = "GDPQS7HP6HHBD6UG2E5GLTIKQZX2PZEA6YWUVKXEYCKSN6QCHKGWCOTM";

#[test]
fn balance_key_is_deterministic_for_the_same_holder() {
    let a = encode_key(&balance_key(TEST_CONTRACT, TEST_HOLDER_A).unwrap());
    let b = encode_key(&balance_key(TEST_CONTRACT, TEST_HOLDER_A).unwrap());
    assert_eq!(a, b);
}

#[test]
fn balance_key_differs_per_holder() {
    let a = encode_key(&balance_key(TEST_CONTRACT, TEST_HOLDER_A).unwrap());
    let b = encode_key(&balance_key(TEST_CONTRACT, TEST_HOLDER_B).unwrap());
    assert_ne!(a, b);
}

#[test]
fn rejects_an_invalid_holder_strkey() {
    assert!(balance_key(TEST_CONTRACT, "not-a-strkey").is_err());
}

fn contract_hash() -> x::Hash {
    let mut hash = [0u8; 32];
    hash[31] = 1;
    x::Hash(hash)
}

fn read_key(key: &[u8]) -> x::LedgerKey {
    x::LedgerKey::from_xdr(key, x::Limits::none()).expect("a ledger key")
}

fn data_key(key: x::ScVal) -> x::LedgerKey {
    x::LedgerKey::ContractData(x::LedgerKeyContractData {
        contract: x::ScAddress::Contract(x::ContractId(contract_hash())),
        key,
        durability: x::ContractDataDurability::Persistent,
    })
}

fn balance_of_zero_account() -> x::ScVal {
    let holder = x::ScVal::Address(x::ScAddress::Account(x::AccountId(
        x::PublicKey::PublicKeyTypeEd25519(x::Uint256([0; 32])),
    )));
    let symbol = x::ScVal::Symbol(x::ScSymbol::try_from("Balance".to_string()).unwrap());
    x::ScVal::Vec(Some(x::ScVec(x::VecM::try_from(vec![symbol, holder]).unwrap())))
}

#[test]
fn balance_keys_name_the_contract_and_the_holder() {
    let key = balance_key(TEST_CONTRACT, TEST_HOLDER_A).unwrap();
    assert_eq!(read_key(&key), data_key(balance_of_zero_account()));
}

#[test]
fn instance_keys_name_the_contract() {
    let key = instance_key(TEST_CONTRACT).unwrap();
    assert_eq!(read_key(&key), data_key(x::ScVal::LedgerKeyContractInstance));
    assert!(instance_key(TEST_HOLDER_A).is_err());
}

#[test]
fn code_keys_name_the_hash() {
    let key = code_key([7; 32]).unwrap();
    assert_eq!(
        read_key(&key),
        x::LedgerKey::ContractCode(x::LedgerKeyContractCode { hash: x::Hash([7; 32]) })
    );
}

fn balance_entry(val: x::ScVal) -> String {
    let entry = x::LedgerEntryData::ContractData(x::ContractDataEntry {
        ext: x::ExtensionPoint::V0,
        contract: x::ScAddress::Contract(x::ContractId(contract_hash())),
        key: balance_of_zero_account(),
        durability: x::ContractDataDurability::Persistent,
        val,
    });
    let mut buf = Vec::new();
    entry.write_xdr(&mut x::Limited::new(&mut buf, x::Limits::none())).unwrap();
    STANDARD.encode(buf)
}

#[test]
fn only_holders_with_an_entry_are_observed() {
    let holders = vec![TEST_HOLDER_A.to_string(), TEST_HOLDER_B.to_string()];
    let keys = balance_keys(TEST_CONTRACT, &holders).unwrap();
    let entries = vec![
        LedgerEntryResult { key: "other".to_string(), xdr: "garbage".to_string() },
        LedgerEntryResult { key: keys[0].clone(), xdr: balance_entry(x::ScVal::U64(42)) },
    ];
    let seen = balance_observations(&holders, &keys, &entries).unwrap();
    assert_eq!(seen.len(), 1);
    assert_eq!(seen[0].storage_key, keys[0]);
    assert_eq!(seen[0].key_json.get("Balance").and_then(|v| v.as_str()), Some(TEST_HOLDER_A));
    assert_eq!(seen[0].value_json, Some(Json::String("U64(42)".to_string())));
}

#[test]
fn balances_are_observed_as_decimals() {
    let holders = vec![TEST_HOLDER_A.to_string()];
    let keys = balance_keys(TEST_CONTRACT, &holders).unwrap();
    let amount = x::ScVal::I128(x::Int128Parts { hi: 1, lo: 5 });
    let entries = vec![LedgerEntryResult { key: keys[0].clone(), xdr: balance_entry(amount) }];
    let seen = balance_observations(&holders, &keys, &entries).unwrap();
    assert_eq!(seen[0].value_json, Some(Json::String("18446744073709551621".to_string())));
}

#[test]
fn entries_that_cannot_be_decoded_are_errors() {
    let holders = vec![TEST_HOLDER_A.to_string()];
    let keys = balance_keys(TEST_CONTRACT, &holders).unwrap();
    let entries = vec![LedgerEntryResult { key: keys[0].clone(), xdr: "AAAA".to_string() }];
    assert!(balance_observations(&holders, &keys, &entries).is_err());
}

#[test]
fn an_invalid_holder_spoils_the_whole_request() {
    let holders = vec![TEST_HOLDER_A.to_string(), "nobody".to_string()];
    assert!(balance_keys(TEST_CONTRACT, &holders).is_err());
}

fn nested(levels: u32) -> x::ScVal {
    let mut val = x::ScVal::Void;
    for _ in 0..levels {
        val = x::ScVal::Vec(Some(x::ScVec(x::VecM::try_from(vec![val]).unwrap())));
    }
    val
}

#[test]
fn stored_values_may_nest_only_so_deep() {
    let holders = vec![TEST_HOLDER_A.to_string()];
    let keys = balance_keys(TEST_CONTRACT, &holders).unwrap();
    let with = |levels| {
        vec![LedgerEntryResult { key: keys[0].clone(), xdr: balance_entry(nested(levels)) }]
    };
    assert_eq!(balance_observations(&holders, &keys, &with(50)).unwrap().len(), 1);
    let err = balance_observations(&holders, &keys, &with(600)).unwrap_err();
    assert!(err.to_string().contains("XDR decode LedgerEntryData"));
}
