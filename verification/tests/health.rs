use trident::indexer::rpc::health::{CircuitState, RpcHealthScorer, CIRCUIT_BREAKER_THRESHOLD};

fn scorer() -> RpcHealthScorer {
    RpcHealthScorer::new(vec![
        "https://primary.example".to_string(),
        "https://backup.example".to_string(),
    ])
    .unwrap()
}

#[test]
fn empty_endpoint_list_is_error() {
    let err = RpcHealthScorer::new(vec![]).unwrap_err();
    assert!(err.to_string().contains("at least one"));
}

#[test]
fn initial_score_is_100() {
    let s = scorer();
    assert_eq!(s.get_score("https://primary.example"), 100);
    assert_eq!(s.get_score("https://backup.example"), 100);
}

#[test]
fn success_increases_score_capped_at_100() {
    let mut s = scorer();
    s.record_success("https://primary.example", Some(100));
    assert_eq!(s.get_score("https://primary.example"), 100); // Already at max
}

#[test]
fn timeout_deducts_20() {
    let mut s = scorer();
    s.record_timeout("https://primary.example");
    assert_eq!(s.get_score("https://primary.example"), 80);
}

#[test]
fn non_200_deducts_15() {
    let mut s = scorer();
    s.record_non_200("https://primary.example");
    assert_eq!(s.get_score("https://primary.example"), 85);
}

#[test]
fn rpc_error_deducts_10() {
    let mut s = scorer();
    s.record_rpc_error("https://primary.example");
    assert_eq!(s.get_score("https://primary.example"), 90);
}

#[test]
fn connection_refused_deducts_30() {
    let mut s = scorer();
    s.record_connection_refused("https://primary.example");
    assert_eq!(s.get_score("https://primary.example"), 70);
}

#[test]
fn recovery_adds_5() {
    let mut s = scorer();
    s.record_timeout("https://primary.example");
    assert_eq!(s.get_score("https://primary.example"), 80);

    s.record_success("https://primary.example", Some(100));
    assert_eq!(s.get_score("https://primary.example"), 85);
}

#[test]
fn score_floor_is_0() {
    let mut s = scorer();
    for _ in 0..10 {
        s.record_connection_refused("https://primary.example");
    }
    assert_eq!(s.get_score("https://primary.example"), 0);
}

#[test]
fn select_best_chooses_highest_score() {
    let mut s = scorer();
    s.record_timeout("https://primary.example");
    assert_eq!(s.select_best_endpoint(), "https://backup.example");
}

#[test]
fn select_best_prefers_recently_successful_on_tie() {
    let mut s = scorer();
    s.record_success("https://primary.example", Some(100));
    // Both at 100, but primary was more recently successful
    assert_eq!(s.select_best_endpoint(), "https://primary.example");
}

#[test]
fn all_degraded_true_when_all_below_20() {
    let mut s = scorer();
    for _ in 0..5 {
        s.record_connection_refused("https://primary.example");
        s.record_connection_refused("https://backup.example");
    }
    assert!(s.all_degraded());
}

#[test]
fn all_degraded_false_when_any_above_20() {
    let mut s = scorer();
    s.record_connection_refused("https://primary.example");
    s.record_connection_refused("https://primary.example");
    // Primary at 40, backup at 100
    assert!(!s.all_degraded());
}

#[test]
fn ledger_tracking_works() {
    let mut s = scorer();
    s.record_success("https://primary.example", Some(100));
    s.record_success("https://backup.example", Some(95));

    // Verify scores are updated
    assert_eq!(s.get_score("https://primary.example"), 100);
    assert_eq!(s.get_score("https://backup.example"), 100);
}

#[test]
fn stale_detection_requires_time_difference() {
    let mut s = scorer();
    // Both endpoints report the same ledger - no stale detection
    s.record_success("https://primary.example", Some(100));
    s.record_success("https://backup.example", Some(100));

    assert!(!s.check_and_record_stale("https://primary.example"));
    assert_eq!(s.get_score("https://primary.example"), 100);
}

#[test]
fn multiple_deductions_accumulate() {
    let mut s = scorer();
    s.record_timeout("https://primary.example"); // -20 -> 80
    s.record_non_200("https://primary.example"); // -15 -> 65
    s.record_rpc_error("https://primary.example"); // -10 -> 55

    assert_eq!(s.get_score("https://primary.example"), 55);
}

#[test]
fn recovery_eventually_restores_to_100() {
    let mut s = scorer();
    s.record_connection_refused("https://primary.example"); // 70

    for _ in 0..10 {
        s.record_success("https://primary.example", Some(100));
    }

    assert_eq!(s.get_score("https://primary.example"), 100);
}

#[test]
fn three_endpoints_routing() {
    let mut s = RpcHealthScorer::new(vec![
        "https://primary.example".to_string(),
        "https://backup1.example".to_string(),
        "https://backup2.example".to_string(),
    ])
    .unwrap();

    // Primary degraded, backup1 degraded, backup2 healthy
    s.record_connection_refused("https://primary.example"); // 70
    s.record_connection_refused("https://backup1.example"); // 70
    s.record_connection_refused("https://backup1.example"); // 40

    assert_eq!(s.select_best_endpoint(), "https://backup2.example");
}

#[test]
fn unknown_endpoint_noops() {
    let mut s = scorer();
    // These should not panic
    s.record_timeout("https://unknown.example");
    s.record_success("https://unknown.example", Some(100));
    assert_eq!(s.get_score("https://unknown.example"), 100); // Default
}

#[test]
fn circuit_breaker_opens_after_threshold_failures() {
    let mut s = scorer();
    for _ in 0..CIRCUIT_BREAKER_THRESHOLD {
        s.record_timeout("https://primary.example");
    }
    assert_eq!(
        s.get_circuit_state("https://primary.example"),
        CircuitState::Open
    );
}

#[test]
fn circuit_breaker_skips_open_endpoint() {
    let mut s = scorer();
    // Trip the primary's circuit breaker
    for _ in 0..CIRCUIT_BREAKER_THRESHOLD {
        s.record_connection_refused("https://primary.example");
    }
    // select_best_endpoint should skip primary and return backup
    assert_eq!(s.select_best_endpoint(), "https://backup.example");
}

#[test]
fn circuit_breaker_success_resets_to_closed() {
    let mut s = scorer();
    for _ in 0..CIRCUIT_BREAKER_THRESHOLD {
        s.record_timeout("https://primary.example");
    }
    assert_eq!(
        s.get_circuit_state("https://primary.example"),
        CircuitState::Open
    );
    // A success should reset the circuit breaker
    s.record_success("https://primary.example", Some(100));
    assert_eq!(
        s.get_circuit_state("https://primary.example"),
        CircuitState::Closed
    );
}

#[test]
fn circuit_breaker_is_circuit_allowed() {
    let mut s = scorer();
    assert!(s.is_circuit_allowed("https://primary.example"));
    for _ in 0..CIRCUIT_BREAKER_THRESHOLD {
        s.record_timeout("https://primary.example");
    }
    assert!(!s.is_circuit_allowed("https://primary.example"));
}

/// With every circuit open, selection still names an endpoint, so that the call can fail normally.
#[test]
fn select_best_endpoint_falls_back_when_every_circuit_is_open() {
    let mut s = scorer();
    for url in ["https://primary.example", "https://backup.example"] {
        for _ in 0..CIRCUIT_BREAKER_THRESHOLD {
            s.record_timeout(url);
        }
        assert!(!s.is_circuit_allowed(url), "{url} circuit should be open");
    }

    // Must not panic, and must return a configured endpoint.
    let selected = s.select_best_endpoint();
    assert!(
        selected == "https://primary.example" || selected == "https://backup.example",
        "fallback returned an unconfigured endpoint: {selected}"
    );
}
