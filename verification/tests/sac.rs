use trident::indexer::parser::sac::{derive_sac_contract_id, SacRegistry, TrackedAsset};

const TESTNET_PASSPHRASE: &str = "Test SDF Network ; September 2015";
const MAINNET_PASSPHRASE: &str = "Public Global Stellar Network ; September 2015";
const ISSUER: &str = "GAIRCEIRCEIRCEIRCEIRCEIRCEIRCEIRCEIRCEIRCEIRCEIRCEIRCF6M";

#[test]
fn native_asset_derives_a_valid_strkey_contract_id() {
    let id = derive_sac_contract_id("native", "", TESTNET_PASSPHRASE).expect("derive");
    assert!(id.starts_with('C'), "got {id}");
    assert_eq!(id.len(), 56, "contract strkey must be 56 chars, got {id}");
}

#[test]
fn native_is_case_insensitive() {
    let a = derive_sac_contract_id("native", "", TESTNET_PASSPHRASE).unwrap();
    let b = derive_sac_contract_id("NATIVE", "", TESTNET_PASSPHRASE).unwrap();
    assert_eq!(a, b);
}

#[test]
fn deriving_twice_is_deterministic() {
    let a = derive_sac_contract_id("USDC", ISSUER, TESTNET_PASSPHRASE).unwrap();
    let b = derive_sac_contract_id("USDC", ISSUER, TESTNET_PASSPHRASE).unwrap();
    assert_eq!(a, b, "same inputs must derive the same contract id");
}

#[test]
fn different_asset_codes_derive_different_ids() {
    let usdc = derive_sac_contract_id("USDC", ISSUER, TESTNET_PASSPHRASE).unwrap();
    let usdt = derive_sac_contract_id("USDT", ISSUER, TESTNET_PASSPHRASE).unwrap();
    assert_ne!(usdc, usdt);
}

#[test]
fn different_network_passphrase_derives_a_different_id() {
    let testnet = derive_sac_contract_id("USDC", ISSUER, TESTNET_PASSPHRASE).unwrap();
    let mainnet = derive_sac_contract_id("USDC", ISSUER, MAINNET_PASSPHRASE).unwrap();
    assert_ne!(testnet, mainnet);
}

#[test]
fn short_code_uses_alphanum4_and_long_code_uses_alphanum12() {
    // Codes of differing length classes must not collide, which would
    // happen if both were padded into the same fixed-width representation.
    let four = derive_sac_contract_id("USDC", ISSUER, TESTNET_PASSPHRASE).unwrap();
    let twelve = derive_sac_contract_id("LONGASSETCOD", ISSUER, TESTNET_PASSPHRASE).unwrap();
    assert_ne!(four, twelve);
    assert_eq!(twelve.len(), 56);
}

#[test]
fn code_over_12_chars_is_rejected() {
    assert!(derive_sac_contract_id("THIRTEENCHARS", ISSUER, TESTNET_PASSPHRASE).is_err());
}

#[test]
fn empty_code_is_rejected() {
    assert!(derive_sac_contract_id("", ISSUER, TESTNET_PASSPHRASE).is_err());
}

#[test]
fn invalid_issuer_strkey_is_rejected() {
    assert!(derive_sac_contract_id("USDC", "not-a-strkey", TESTNET_PASSPHRASE).is_err());
}

#[test]
fn registry_looks_up_a_tracked_asset_by_derived_contract_id() {
    let assets = vec![TrackedAsset {
        code: "USDC".to_string(),
        issuer: ISSUER.to_string(),
    }];
    let registry = SacRegistry::build(&assets, TESTNET_PASSPHRASE).expect("build");

    let contract_id = derive_sac_contract_id("USDC", ISSUER, TESTNET_PASSPHRASE).unwrap();
    assert_eq!(registry.lookup(&contract_id), Some(("USDC", ISSUER)));
}

#[test]
fn registry_returns_none_for_an_untracked_contract() {
    let registry = SacRegistry::build(&[], TESTNET_PASSPHRASE).expect("build");
    assert_eq!(registry.lookup("CSOMEUNTRACKEDCONTRACT"), None);
}
