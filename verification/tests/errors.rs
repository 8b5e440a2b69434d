use trident::errors::{ErrorSource, Severity, TridentError};

fn msg(text: &str) -> ErrorSource {
    ErrorSource::msg(text.to_string())
}

#[test]
fn rpc_errors_are_retryable() {
    let err = TridentError::rpc(msg("connection reset"));
    assert_eq!(err.severity(), Severity::Retryable);
    assert!(err.retryable());
    assert!(!err.fatal());
}

#[test]
fn storage_errors_are_retryable() {
    let err = TridentError::storage(msg("pool timeout"));
    assert_eq!(err.severity(), Severity::Retryable);
    assert!(err.retryable());
}

#[test]
fn parse_errors_are_skipped_not_retried() {
    let err = TridentError::parse(msg("bad XDR"));
    assert_eq!(err.severity(), Severity::Skip);
    assert!(!err.retryable());
    assert!(!err.fatal());
}

#[test]
fn config_errors_are_fatal() {
    let err = TridentError::config(msg("missing DATABASE_URL"));
    assert_eq!(err.severity(), Severity::Fatal);
    assert!(err.fatal());
    assert!(!err.retryable());
}

#[test]
fn source_chain_is_preserved() {
    let err = TridentError::storage(msg("socket timeout").context("insert_event".to_string()));
    let src = err.source();
    assert!(src.to_string().contains("insert_event"));
    assert_eq!(src.chain_text(), "insert_event: socket timeout");
}

#[test]
fn rpc_error_carries_ledger_context() {
    let err = TridentError::rpc_at(msg("504"), 12345);
    assert!(err.to_string().contains("ledger 12345"));
    assert!(err.retryable());
    assert_eq!(err.to_string(), "RPC error at ledger 12345: 504");
}

#[test]
fn every_variant_display_includes_the_whole_context_chain() {
    let chained = || msg("connection reset by peer").context("some_op".to_string());
    for err in [
        TridentError::rpc(chained()),
        TridentError::rpc_at(chained(), 42),
        TridentError::parse(chained()),
        TridentError::storage(chained()),
        TridentError::config(chained()),
    ] {
        let rendered = err.to_string();
        assert!(rendered.contains("some_op"), "outer context missing from: {rendered}");
        assert!(
            rendered.contains("connection reset by peer"),
            "underlying cause missing from: {rendered}"
        );
    }
}

#[test]
fn each_variant_has_its_heading() {
    assert_eq!(TridentError::rpc(msg("x")).to_string(), "RPC error: x");
    assert_eq!(TridentError::parse(msg("x")).to_string(), "Parse error: x");
    assert_eq!(TridentError::storage(msg("x")).to_string(), "Storage error: x");
    assert_eq!(TridentError::config(msg("x")).to_string(), "Config error: x");
}
