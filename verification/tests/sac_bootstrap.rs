use trident::indexer::sac_bootstrap::{
    mainnet_sacs, parse_override_list, testnet_sacs, well_known_contracts,
};

#[test]
fn parse_override_list_parses_valid_pairs() {
    let raw = "XLM:CABC123,USDC:CDEF456";
    let result = parse_override_list(raw);
    assert_eq!(result.len(), 2);
    assert_eq!(result[0], ("XLM".into(), "CABC123".into()));
    assert_eq!(result[1], ("USDC".into(), "CDEF456".into()));
}

#[test]
fn parse_override_list_skips_malformed_entries() {
    let raw = "ONLYLABEL,GOOD:CABC,";
    let result = parse_override_list(raw);
    assert_eq!(result.len(), 1);
    assert_eq!(result[0].0, "GOOD");
}

#[test]
fn parse_override_list_handles_empty_string() {
    let result = parse_override_list("");
    assert!(result.is_empty());
}

#[test]
fn built_in_mainnet_list_is_non_empty() {
    assert!(!mainnet_sacs().is_empty());
    for e in mainnet_sacs() {
        assert!(!e.contract_id.is_empty());
        assert!(!e.label.is_empty());
    }
}

#[test]
fn built_in_testnet_list_is_non_empty() {
    assert!(!testnet_sacs().is_empty());
}

#[test]
fn a_network_selects_its_list() {
    let mainnet = well_known_contracts(None, "mainnet").expect("a list");
    assert_eq!(mainnet.len(), 3);
    let testnet = well_known_contracts(None, "testnet").expect("a list");
    assert_eq!(testnet.len(), 2);
    assert_eq!(testnet[0].0, "XLM native SAC (testnet)");
    assert!(well_known_contracts(None, "futurenet").is_none());
}

#[test]
fn an_override_takes_the_place_of_the_list() {
    let listed = well_known_contracts(Some("A:CA, B : CB"), "futurenet").expect("a list");
    assert_eq!(
        listed,
        vec![("A".to_string(), "CA".to_string()), ("B".to_string(), "CB".to_string())]
    );
}
