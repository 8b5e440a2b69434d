use trident::indexer::alerting::{
    judge, AlertContext, AlertSink, AlertState, Alerter, Attempt, GenericWebhook, LagAction,
    PagerDuty, RecoveryPayload, RpcAction, RpcDegradedPayload, Sink, SlackWebhook, Verdict,
    WebhookPayload,
};
use trident::json::Json;
use trident::timestamp::Timestamp;

const STAMP: &str = "2026-01-01T00:00:00+00:00";
const NOW: Timestamp = Timestamp { seconds: 1_767_225_600, nanos: 0 };

fn minutes_ago(n: i64) -> Timestamp {
    Timestamp { seconds: NOW.seconds - n * 60, nanos: 0 }
}

fn make_alerter(url: Option<&str>, threshold: u64, cooldown_minutes: u64) -> Alerter {
    let sinks = if url.is_some() { vec![Sink::Generic(GenericWebhook)] } else { vec![] };
    let urls = url.map(|s| vec![s.to_string()]).unwrap_or_default();
    Alerter::from_sinks(sinks, urls, threshold, cooldown_minutes)
}

fn make_ctx(last_indexed: u64, chain_tip: u64, threshold: u64) -> AlertContext {
    AlertContext {
        last_ledger_indexed: last_indexed,
        chain_tip_ledger: chain_tip,
        lag_threshold: threshold,
        network: "testnet".to_string(),
        rpc_all_degraded: false,
    }
}

/// Does what is due, with every sink answering with the given status; tells how much was posted.
fn evaluate(a: &Alerter, ctx: &AlertContext, state: &mut AlertState, status: u16) -> usize {
    let mut posts = 0;
    let mut post_all = |deliveries: usize| {
        let mut posted_any = false;
        for _ in 0..deliveries {
            for number in 1..=2u8 {
                posts += 1;
                match judge(Attempt::Answered { status }, number) {
                    Verdict::Delivered => {
                        posted_any = true;
                        break;
                    }
                    Verdict::GiveUp => break,
                    Verdict::Retry => {}
                }
            }
        }
        posted_any
    };
    let action = a.lag_action(ctx, state, NOW, STAMP);
    let posted = post_all(a.lag_deliveries(&action).len());
    state.record_lag(&action, posted, NOW);
    let action = a.rpc_action(ctx, state, NOW, STAMP);
    let posted = post_all(a.rpc_deliveries(&action).len());
    state.record_rpc(&action, posted, NOW);
    posts
}

#[test]
fn alerter_disabled_when_no_url() {
    let a = make_alerter(None, 200, 30);
    assert!(!a.is_enabled());
}

#[test]
fn alerter_enabled_when_url_set() {
    let a = make_alerter(Some("https://hooks.example.com/test"), 200, 30);
    assert!(a.is_enabled());
}

#[test]
fn alert_fires_when_no_previous_alert() {
    let a = make_alerter(None, 200, 30);
    let ctx = make_ctx(100, 400, 200); // lag = 300 > threshold
    let mut state = AlertState::default();

    evaluate(&a, &ctx, &mut state, 200);

    // Disabled alerter: state must not be mutated.
    assert!(!state.alert_fired);
    assert!(state.last_alert_at.is_none());
}

#[test]
fn second_alert_within_cooldown_is_suppressed() {
    let a = make_alerter(None, 200, 30);
    let ctx = make_ctx(100, 400, 200);
    let mut state = AlertState {
        last_alert_at: Some(minutes_ago(5)),
        alert_fired: true,
        rpc_degraded_fired: false,
        rpc_degraded_last_alert_at: None,
    };

    evaluate(&a, &ctx, &mut state, 200);

    assert!(state.alert_fired);
    assert!(state.last_alert_at.is_some());
}

#[test]
fn alert_fires_again_after_cooldown_expires() {
    let a = make_alerter(None, 200, 30);
    let ctx = make_ctx(100, 400, 200);
    let mut state = AlertState {
        last_alert_at: Some(minutes_ago(31)),
        alert_fired: true,
        rpc_degraded_fired: false,
        rpc_degraded_last_alert_at: None,
    };
    assert_eq!(evaluate(&a, &ctx, &mut state, 200), 0);
    assert_eq!(state.last_alert_at, Some(minutes_ago(31)));
}

#[test]
fn an_enabled_alerter_alerts_again_after_the_cooldown() {
    let a = make_alerter(Some("https://hooks.example.com/test"), 200, 30);
    let ctx = make_ctx(100, 400, 200);
    let mut state = AlertState {
        last_alert_at: Some(minutes_ago(31)),
        alert_fired: true,
        rpc_degraded_fired: false,
        rpc_degraded_last_alert_at: None,
    };
    assert_eq!(evaluate(&a, &ctx, &mut state, 200), 1);
    assert_eq!(state.last_alert_at, Some(NOW));
}

#[test]
fn no_resolve_sent_if_alert_was_never_fired() {
    let a = make_alerter(None, 200, 30);
    let ctx = make_ctx(990, 1000, 200); // lag = 10 < threshold
    let mut state = AlertState {
        last_alert_at: None,
        alert_fired: false,
        rpc_degraded_fired: false,
        rpc_degraded_last_alert_at: None,
    };

    evaluate(&a, &ctx, &mut state, 200);

    assert!(!state.alert_fired);
    assert!(state.last_alert_at.is_none());
}

#[test]
fn webhook_fires_and_payload_fields_are_correct() {
    let alerter = make_alerter(Some("https://hooks.example.com/webhook"), 200, 30);
    let ctx = make_ctx(54_800, 55_050, 200); // lag = 250
    let mut state = AlertState::default();

    let action = alerter.lag_action(&ctx, &state, NOW, STAMP);
    let deliveries = alerter.lag_deliveries(&action);
    assert_eq!(deliveries.len(), 1);
    assert_eq!(deliveries[0].0, "https://hooks.example.com/webhook");
    let body = &deliveries[0].1;
    assert_eq!(body.get("alert").and_then(|v| v.as_str()), Some("indexer_lag"));
    assert_eq!(body.get("severity").and_then(|v| v.as_str()), Some("warning"));
    assert_eq!(body.get("lag_ledgers"), Some(&Json::Number(250)));
    assert_eq!(body.get("timestamp").and_then(|v| v.as_str()), Some(STAMP));
    assert_eq!(
        body.get("message").and_then(|v| v.as_str()),
        Some("Trident indexer is 250 ledgers behind chain tip on testnet (threshold: 200)")
    );

    assert_eq!(evaluate(&alerter, &ctx, &mut state, 200), 1);
    assert!(state.alert_fired, "alert_fired should be set after webhook");
    assert!(state.last_alert_at.is_some(), "last_alert_at should be set after webhook");
}

#[test]
fn recovery_webhook_fires_after_lag_resolves() {
    let alerter = make_alerter(Some("https://hooks.example.com/webhook"), 200, 30);
    let ctx = make_ctx(999_990, 1_000_000, 200); // lag = 10
    let mut state = AlertState {
        last_alert_at: Some(minutes_ago(35)),
        alert_fired: true, // a previous alert was fired
        rpc_degraded_fired: false,
        rpc_degraded_last_alert_at: None,
    };

    assert_eq!(evaluate(&alerter, &ctx, &mut state, 200), 1);
    assert!(!state.alert_fired, "alert_fired should be cleared after recovery");
}

#[test]
fn failed_webhook_does_not_mutate_state() {
    let alerter = make_alerter(Some("https://hooks.example.com/webhook"), 200, 30);
    let ctx = make_ctx(54_800, 55_050, 200);
    let mut state = AlertState::default();

    assert_eq!(evaluate(&alerter, &ctx, &mut state, 500), 2);

    // Delivery failed — state must not be updated.
    assert!(!state.alert_fired, "state must not change on failed delivery");
    assert!(state.last_alert_at.is_none());
}

#[test]
fn cooldown_suppresses_second_alert_with_real_server() {
    let alerter = make_alerter(Some("https://hooks.example.com/webhook"), 200, 30);
    let ctx = make_ctx(54_800, 55_050, 200);
    let mut state = AlertState {
        last_alert_at: Some(minutes_ago(5)),
        alert_fired: true,
        rpc_degraded_fired: false,
        rpc_degraded_last_alert_at: None,
    };
    assert_eq!(evaluate(&alerter, &ctx, &mut state, 200), 0);
}

#[test]
fn a_lag_of_more_than_twice_the_threshold_is_critical() {
    let alerter = Alerter::from_config(Some("https://a.example".to_string()), 200, 30);
    let fired = alerter.lag_action(&make_ctx(0, 401, 200), &AlertState::default(), NOW, STAMP);
    assert!(matches!(fired, LagAction::Fire(p) if p.severity == "critical"));
    let fired = alerter.lag_action(&make_ctx(0, 400, 200), &AlertState::default(), NOW, STAMP);
    assert!(matches!(fired, LagAction::Fire(p) if p.severity == "warning"));
    let none = alerter.lag_action(&make_ctx(0, 200, 200), &AlertState::default(), NOW, STAMP);
    assert!(matches!(none, LagAction::Nothing));
}

#[test]
fn degraded_endpoints_are_reported_and_cleared() {
    let alerter = make_alerter(Some("https://hooks.example.com/webhook"), 200, 30);
    let mut ctx = make_ctx(100, 100, 200);
    ctx.rpc_all_degraded = true;
    let mut state = AlertState::default();
    assert_eq!(evaluate(&alerter, &ctx, &mut state, 200), 1);
    assert!(state.rpc_degraded_fired);
    assert!(!state.alert_fired);
    ctx.rpc_all_degraded = false;
    let action = alerter.rpc_action(&ctx, &state, NOW, STAMP);
    assert!(matches!(action, RpcAction::Resolve(_)));
    assert_eq!(evaluate(&alerter, &ctx, &mut state, 200), 1);
    assert!(!state.rpc_degraded_fired);
}

#[test]
fn every_sink_gets_its_own_form() {
    let alerter = Alerter::from_sinks(
        vec![
            Sink::Slack(SlackWebhook),
            Sink::PagerDuty(PagerDuty { routing_key: "key".to_string() }),
        ],
        vec!["https://slack.example".to_string(), "https://pager.example".to_string()],
        200,
        30,
    );
    let action = alerter.lag_action(&make_ctx(0, 300, 200), &AlertState::default(), NOW, STAMP);
    let deliveries = alerter.lag_deliveries(&action);
    assert_eq!(deliveries.len(), 2);
    let text = deliveries[0].1.get("text").and_then(|v| v.as_str()).expect("a text");
    assert!(text.contains("300 ledgers behind"));
    let blocks = deliveries[0].1.get("blocks").and_then(|v| v.as_array()).expect("blocks");
    let section = blocks[0].get("text").and_then(|v| v.get("text")).and_then(|v| v.as_str());
    assert!(section.expect("a section").starts_with("*INDEXER_LAG* testnet (300 ledgers behind"));
    assert_eq!(deliveries[1].1.get("routing_key").and_then(|v| v.as_str()), Some("key"));
    assert_eq!(deliveries[1].1.get("event_action").and_then(|v| v.as_str()), Some("trigger"));
}

#[test]
fn client_errors_are_final_and_others_are_tried_once_more() {
    assert_eq!(judge(Attempt::Answered { status: 204 }, 1), Verdict::Delivered);
    assert_eq!(judge(Attempt::Answered { status: 404 }, 1), Verdict::GiveUp);
    assert_eq!(judge(Attempt::Answered { status: 503 }, 1), Verdict::Retry);
    assert_eq!(judge(Attempt::Answered { status: 503 }, 2), Verdict::GiveUp);
    assert_eq!(judge(Attempt::NetworkError, 1), Verdict::Retry);
    assert_eq!(judge(Attempt::NetworkError, 2), Verdict::GiveUp);
}

struct Counter(i128);

impl AlertSink for Counter {
    fn alert_body(&self, payload: &WebhookPayload) -> Json {
        Json::Number(self.0 + payload.lag_ledgers as i128)
    }

    fn recovery_body(&self, _payload: &RecoveryPayload) -> Json {
        Json::Null
    }

    fn degraded_body(&self, payload: &RpcDegradedPayload) -> Json {
        Json::String(payload.network.clone())
    }
}

#[test]
fn other_kinds_of_sinks_are_served() {
    let urls = vec!["https://a.example".to_string(), "https://b.example".to_string()];
    let alerter = Alerter::from_sinks(vec![Counter(1), Counter(1000)], urls, 200, 30);
    let state = AlertState::default();
    let ctx = AlertContext {
        last_ledger_indexed: 1_000,
        chain_tip_ledger: 1_500,
        lag_threshold: 200,
        network: "testnet".to_string(),
        rpc_all_degraded: true,
    };
    let action = alerter.lag_action(&ctx, &state, NOW, STAMP);
    assert_eq!(
        alerter.lag_deliveries(&action),
        vec![
            ("https://a.example".to_string(), Json::Number(501)),
            ("https://b.example".to_string(), Json::Number(1_500)),
        ]
    );
    let action = alerter.rpc_action(&ctx, &state, NOW, STAMP);
    let deliveries = alerter.rpc_deliveries(&action);
    assert_eq!(deliveries.len(), 2);
    assert!(deliveries.iter().all(|d| d.1 == Json::String("testnet".to_string())));
}
