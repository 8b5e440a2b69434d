use trident::indexer::rpc::endpoints::EndpointPool;

fn seconds(n: u128) -> u128 {
    n * 1_000_000_000
}

fn pool() -> EndpointPool {
    EndpointPool::new(
        vec![
            "https://primary.example".to_string(),
            "https://secondary.example".to_string(),
            "https://tertiary.example".to_string(),
        ],
        2,
        seconds(30),
    )
    .unwrap()
}

#[test]
fn empty_endpoint_list_is_a_config_error() {
    let err = EndpointPool::new(vec![], 3, seconds(1)).unwrap_err();
    assert!(err.to_string().contains("at least one"));
}

#[test]
fn zero_threshold_is_a_config_error() {
    let err =
        EndpointPool::new(vec!["https://a".into()], 0, seconds(1)).unwrap_err();
    assert!(err.to_string().contains("at least 1"));
}

#[test]
fn primary_is_preferred_initially() {
    let mut p = pool();
    let (url, changed) = p.select_at(0);
    assert_eq!(url, "https://primary.example");
    assert!(!changed);
    assert_eq!(p.active_index(), 0);
}

#[test]
fn failures_below_threshold_do_not_fail_over() {
    let mut p = pool();
    let now: u128 = 0;
    assert!(!p.record_failure_at(now));
    assert_eq!(p.active_index(), 0);
}

#[test]
fn sustained_failure_fails_over_to_next_endpoint() {
    let mut p = pool();
    let now: u128 = 0;
    assert!(!p.record_failure_at(now));
    assert!(p.record_failure_at(now), "second failure should fail over");
    assert_eq!(p.active_index(), 1);
    assert_eq!(p.active_url(), "https://secondary.example");
}

#[test]
fn success_resets_the_failure_streak() {
    let mut p = pool();
    let now: u128 = 0;
    p.record_failure_at(now);
    p.record_success();
    assert!(!p.record_failure_at(now), "streak should have been cleared");
    assert_eq!(p.active_index(), 0);
}

#[test]
fn recovers_to_primary_after_cooldown() {
    let mut p = pool();
    let t0: u128 = 0;
    p.record_failure_at(t0);
    p.record_failure_at(t0);
    assert_eq!(p.active_index(), 1);

    // Still inside the cooldown window: stay on the secondary.
    let (_, changed) = p.select_at(t0 + seconds(5));
    assert!(!changed);
    assert_eq!(p.active_index(), 1);

    // Cooldown elapsed: the primary is promoted back.
    let (url, changed) = p.select_at(t0 + seconds(31));
    assert!(changed);
    assert_eq!(url, "https://primary.example");
    assert_eq!(p.active_index(), 0);
}

#[test]
fn cascading_failures_walk_down_the_priority_list() {
    let mut p = pool();
    let now: u128 = 0;
    p.record_failure_at(now);
    p.record_failure_at(now);
    assert_eq!(p.active_index(), 1);
    p.record_failure_at(now);
    p.record_failure_at(now);
    assert_eq!(p.active_index(), 2);
}

#[test]
fn all_endpoints_parked_keeps_serving_the_last_one() {
    let mut p = EndpointPool::new(
        vec!["https://only.example".into()],
        1,
        seconds(30),
    )
    .unwrap();
    let now: u128 = 0;
    assert!(
        !p.record_failure_at(now),
        "single endpoint cannot fail over"
    );
    assert_eq!(p.active_url(), "https://only.example");
    // Selection must still return the endpoint rather than stalling ingest.
    assert_eq!(p.select_at(now).0, "https://only.example");
}

#[test]
fn single_endpoint_pool_reports_length() {
    let p = EndpointPool::new(vec!["https://a".into()], 3, seconds(1)).unwrap();
    assert_eq!(p.len(), 1);
}

#[test]
fn a_single_endpoint_never_fails_over() {
    let mut only =
        EndpointPool::new(vec!["https://only.example".to_string()], 1, seconds(30)).unwrap();
    for i in 0..5 {
        assert!(!only.record_failure_at(seconds(i)));
        assert_eq!(only.select_at(seconds(i)), ("https://only.example".to_string(), false));
        assert_eq!(only.active_index(), 0);
    }
}

#[test]
fn a_failing_endpoint_is_left_even_without_a_cooldown() {
    let urls = vec!["https://a".to_string(), "https://b".to_string()];
    let mut p = EndpointPool::new(urls, 1, 0).unwrap();
    assert!(p.record_failure_at(seconds(1)));
    assert_eq!(p.active_index(), 1);
}

#[test]
fn failover_goes_round_and_streaks_last_until_an_endpoint_is_taken_again() {
    let mut p = pool();
    p.record_failure_at(0);
    assert!(p.record_failure_at(0));
    p.record_failure_at(seconds(5));
    assert!(p.record_failure_at(seconds(5)));
    assert_eq!(p.active_index(), 2);
    p.record_failure_at(seconds(31));
    assert!(p.record_failure_at(seconds(31)), "the primary is behind the last one");
    assert_eq!(p.active_index(), 0);
    assert!(p.record_failure_at(seconds(36)), "its two failures were not forgotten");
    assert_eq!(p.active_index(), 1);
    assert_eq!(p.select_at(seconds(66)).0, "https://primary.example");
    assert!(!p.record_failure_at(seconds(66)), "it was taken again");
}
