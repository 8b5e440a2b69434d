//! Alerting: when an alert about the indexer's lag or about the RPC endpoints is due, what it says
//! to each kind of sink, and how a delivery is tried.
//!
//! An alert is due at most once per cooldown, and a recovery only where an alert went out. Nothing
//! is remembered of an alert that reached no sink.
use vstd::prelude::*;

use crate::json::json_views;
use crate::json::member_of;
use crate::json::push_item;
use crate::json::put_number;
use crate::json::put_text;
use crate::json::set_member;
use crate::json::Json;
use crate::json::JsonMember;
use crate::json::JsonView;
use crate::text::dec;
use crate::text::push_dec;
use crate::text::same;
use crate::text::views;
use crate::timestamp::Timestamp;

verus! {

broadcast use vstd::string::group_string_axioms;

/// How long a delivery may take, in seconds.
pub const WEBHOOK_TIMEOUT_SECS: u64 = 5;

/// How bad it is.
#[derive(Debug, Clone, Copy, PartialEq, Eq, Structural)]
pub enum Severity {
    Info,
    Warning,
    Critical,
}

impl Severity {
    /// The name of the severity.
    pub open spec fn name(self) -> Seq<char> {
        match self {
            Severity::Info => "info"@,
            Severity::Warning => "warning"@,
            Severity::Critical => "critical"@,
        }
    }

    /// The name of the severity.
    pub fn as_str(self) -> (r: &'static str)
        ensures
            r@ == self.name(),
    {
        match self {
            Severity::Info => "info",
            Severity::Warning => "warning",
            Severity::Critical => "critical",
        }
    }
}

/// What an evaluation looks at.
#[derive(Debug)]
pub struct AlertContext {
    pub last_ledger_indexed: u64,
    pub chain_tip_ledger: u64,
    pub lag_threshold: u64,
    pub network: String,
    /// Whether every RPC endpoint is critically degraded.
    pub rpc_all_degraded: bool,
}

impl AlertContext {
    /// How many ledgers the indexer is behind.
    pub open spec fn lag(self) -> int {
        if self.chain_tip_ledger >= self.last_ledger_indexed {
            self.chain_tip_ledger - self.last_ledger_indexed
        } else {
            0
        }
    }

    /// How bad the lag is.
    pub open spec fn lag_severity(self) -> Severity {
        if self.lag() > self.lag_threshold * 2 {
            Severity::Critical
        } else {
            Severity::Warning
        }
    }
}

/// What is remembered between evaluations.
#[derive(Debug, Clone, Copy, PartialEq, Eq, Structural)]
pub struct AlertState {
    pub last_alert_at: Option<Timestamp>,
    pub alert_fired: bool,
    pub rpc_degraded_fired: bool,
    pub rpc_degraded_last_alert_at: Option<Timestamp>,
}

impl Default for AlertState {
    fn default() -> (r: Self)
        ensures
            r == (AlertState {
                last_alert_at: None,
                alert_fired: false,
                rpc_degraded_fired: false,
                rpc_degraded_last_alert_at: None,
            }),
    {
        AlertState {
            last_alert_at: None,
            alert_fired: false,
            rpc_degraded_fired: false,
            rpc_degraded_last_alert_at: None,
        }
    }
}

/// The nanoseconds from one point in time to another, none where the other is earlier.
pub open spec fn elapsed(from: Timestamp, to: Timestamp) -> int {
    let nanos = (to.seconds - from.seconds) * 1_000_000_000 + (to.nanos - from.nanos);
    if nanos >= 0 {
        nanos
    } else {
        0
    }
}

fn elapsed_nanos(from: Timestamp, to: Timestamp) -> (r: i128)
    ensures
        r == elapsed(from, to),
{
    let seconds: i128 = to.seconds as i128 - from.seconds as i128;
    let nanos: i128 = seconds * 1_000_000_000 + (to.nanos as i128 - from.nanos as i128);
    if nanos >= 0 {
        nanos
    } else {
        0
    }
}

// ---------------------------------------------------------------------------------------------
// What an alert says.
// ---------------------------------------------------------------------------------------------
/// An alert about the lag.
#[derive(Debug)]
pub struct WebhookPayload {
    pub alert: &'static str,
    pub severity: String,
    pub indexer: &'static str,
    pub network: String,
    pub lag_ledgers: u64,
    pub last_indexed_ledger: u64,
    pub chain_tip_ledger: u64,
    pub lag_threshold: u64,
    pub timestamp: String,
    pub message: String,
    pub text: String,
}

/// The end of a lag.
#[derive(Debug)]
pub struct RecoveryPayload {
    pub alert: &'static str,
    pub lag_ledgers: u64,
    pub timestamp: String,
    pub message: String,
    pub text: String,
}

/// An alert about the RPC endpoints, or its end.
#[derive(Debug)]
pub struct RpcDegradedPayload {
    pub alert: &'static str,
    pub severity: String,
    pub indexer: &'static str,
    pub network: String,
    pub timestamp: String,
    pub message: String,
    pub text: String,
}

/// The text of an alert about the lag.
pub open spec fn lag_text(ctx: AlertContext) -> Seq<char> {
    "Trident indexer is "@ + dec(ctx.lag() as nat) + " ledgers behind chain tip on "@
        + ctx.network@ + " (threshold: "@ + dec(ctx.lag_threshold as nat) + ")"@
}

/// The text of the end of a lag.
pub open spec fn recovery_text(lag: nat) -> Seq<char> {
    "Trident indexer has recovered. Lag is now "@ + dec(lag) + " ledgers."@
}

/// The text of an alert about the RPC endpoints.
pub open spec fn degraded_text(network: Seq<char>) -> Seq<char> {
    "All RPC endpoints are critically degraded (health score < 20) on "@ + network
        + ". The indexer may be unable to fetch events."@
}

/// The text of the end of an alert about the RPC endpoints.
pub open spec fn restored_text(network: Seq<char>) -> Seq<char> {
    "RPC endpoints have recovered on "@ + network
        + ". At least one endpoint now has a health score >= 20."@
}

/// What is due about the lag.
#[derive(Debug)]
pub enum LagAction {
    Nothing,
    Fire(WebhookPayload),
    Resolve(RecoveryPayload),
}

/// What is due about the RPC endpoints.
#[derive(Debug)]
pub enum RpcAction {
    Nothing,
    Fire(RpcDegradedPayload),
    Resolve(RpcDegradedPayload),
}

// ---------------------------------------------------------------------------------------------
// The sinks.
// ---------------------------------------------------------------------------------------------
/// The upper-case form of a text, as Unicode defines it.
pub uninterp spec fn uppercase(s: Seq<char>) -> Seq<char>;

/// `str::to_uppercase` of std: the upper-case equivalent of the text.
#[verifier::external_body]
fn to_uppercase(s: &str) -> (r: String)
    ensures
        r@ == uppercase(s@),
{
    s.to_uppercase()
}

/// Where alerts go: a sink says in what form it takes them.
pub trait AlertSink {
    /// What is posted for an alert about the lag.
    fn alert_body(&self, payload: &WebhookPayload) -> (r: Json);

    /// What is posted for the end of a lag.
    fn recovery_body(&self, payload: &RecoveryPayload) -> (r: Json);

    /// What is posted for an alert about the RPC endpoints, or its end.
    fn degraded_body(&self, payload: &RpcDegradedPayload) -> (r: Json);
}

/// A sink that takes an alert as it is.
#[derive(Debug, Clone, Copy)]
pub struct GenericWebhook;

/// A sink that takes an alert as a Slack message.
#[derive(Debug, Clone, Copy)]
pub struct SlackWebhook;

/// A sink that takes an alert as an event of PagerDuty.
#[derive(Debug)]
pub struct PagerDuty {
    pub routing_key: String,
}

impl GenericWebhook {
    /// An alert about the lag, for a sink that takes it as it is.
    pub open spec fn alert_json(self, payload: WebhookPayload) -> JsonView {
        JsonView::Object(
            Map::empty().insert("alert"@, JsonView::String(payload.alert@)).insert(
                "severity"@,
                JsonView::String(payload.severity@),
            ).insert("indexer"@, JsonView::String(payload.indexer@)).insert(
                "network"@,
                JsonView::String(payload.network@),
            ).insert("lag_ledgers"@, JsonView::Number(payload.lag_ledgers as int)).insert(
                "last_indexed_ledger"@,
                JsonView::Number(payload.last_indexed_ledger as int),
            ).insert(
                "chain_tip_ledger"@,
                JsonView::Number(payload.chain_tip_ledger as int),
            ).insert("lag_threshold"@, JsonView::Number(payload.lag_threshold as int)).insert(
                "timestamp"@,
                JsonView::String(payload.timestamp@),
            ).insert("message"@, JsonView::String(payload.message@)).insert(
                "text"@,
                JsonView::String(payload.text@),
            ),
        )
    }

    /// The end of a lag, for a sink that takes it as it is.
    pub open spec fn recovery_json(self, payload: RecoveryPayload) -> JsonView {
        JsonView::Object(
            Map::empty().insert("alert"@, JsonView::String(payload.alert@)).insert(
                "lag_ledgers"@,
                JsonView::Number(payload.lag_ledgers as int),
            ).insert("timestamp"@, JsonView::String(payload.timestamp@)).insert(
                "message"@,
                JsonView::String(payload.message@),
            ).insert("text"@, JsonView::String(payload.text@)),
        )
    }

    /// An alert about the RPC endpoints, for a sink that takes it as it is.
    pub open spec fn degraded_json(self, payload: RpcDegradedPayload) -> JsonView {
        JsonView::Object(
            Map::empty().insert("alert"@, JsonView::String(payload.alert@)).insert(
                "severity"@,
                JsonView::String(payload.severity@),
            ).insert("indexer"@, JsonView::String(payload.indexer@)).insert(
                "network"@,
                JsonView::String(payload.network@),
            ).insert("timestamp"@, JsonView::String(payload.timestamp@)).insert(
                "message"@,
                JsonView::String(payload.message@),
            ).insert("text"@, JsonView::String(payload.text@)),
        )
    }
}

impl AlertSink for GenericWebhook {
    /// What is posted for an alert about the lag.
    fn alert_body(&self, payload: &WebhookPayload) -> (r: Json)
        ensures
            r@ == self.alert_json(*payload),
    {
        let mut m: Vec<JsonMember> = Vec::new();
        put_text(&mut m, "alert", payload.alert);
        put_text(&mut m, "severity", payload.severity.as_str());
        put_text(&mut m, "indexer", payload.indexer);
        put_text(&mut m, "network", payload.network.as_str());
        put_number(&mut m, "lag_ledgers", payload.lag_ledgers as i128);
        put_number(&mut m, "last_indexed_ledger", payload.last_indexed_ledger as i128);
        put_number(&mut m, "chain_tip_ledger", payload.chain_tip_ledger as i128);
        put_number(&mut m, "lag_threshold", payload.lag_threshold as i128);
        put_text(&mut m, "timestamp", payload.timestamp.as_str());
        put_text(&mut m, "message", payload.message.as_str());
        put_text(&mut m, "text", payload.text.as_str());
        Json::Object(m)
    }

    /// What is posted for the end of a lag.
    fn recovery_body(&self, payload: &RecoveryPayload) -> (r: Json)
        ensures
            r@ == self.recovery_json(*payload),
    {
        let mut m: Vec<JsonMember> = Vec::new();
        put_text(&mut m, "alert", payload.alert);
        put_number(&mut m, "lag_ledgers", payload.lag_ledgers as i128);
        put_text(&mut m, "timestamp", payload.timestamp.as_str());
        put_text(&mut m, "message", payload.message.as_str());
        put_text(&mut m, "text", payload.text.as_str());
        Json::Object(m)
    }

    /// What is posted for an alert about the RPC endpoints.
    fn degraded_body(&self, payload: &RpcDegradedPayload) -> (r: Json)
        ensures
            r@ == self.degraded_json(*payload),
    {
        let mut m: Vec<JsonMember> = Vec::new();
        put_text(&mut m, "alert", payload.alert);
        put_text(&mut m, "severity", payload.severity.as_str());
        put_text(&mut m, "indexer", payload.indexer);
        put_text(&mut m, "network", payload.network.as_str());
        put_text(&mut m, "timestamp", payload.timestamp.as_str());
        put_text(&mut m, "message", payload.message.as_str());
        put_text(&mut m, "text", payload.text.as_str());
        Json::Object(m)
    }
}

/// A Slack message: the text, and the section that is shown in its place.
pub open spec fn slack_json(text: Seq<char>, section: Seq<char>) -> JsonView {
    let inner = JsonView::Object(
        Map::empty().insert("type"@, JsonView::String("mrkdwn"@)).insert(
            "text"@,
            JsonView::String(section),
        ),
    );
    let block = JsonView::Object(
        Map::empty().insert("type"@, JsonView::String("section"@)).insert("text"@, inner),
    );
    JsonView::Object(
        Map::empty().insert("text"@, JsonView::String(text)).insert(
            "blocks"@,
            JsonView::Array(Seq::empty().push(block)),
        ),
    )
}

fn slack_body(text: &str, section: &str) -> (r: Json)
    ensures
        r@ == slack_json(text@, section@),
{
    let mut inner: Vec<JsonMember> = Vec::new();
    put_text(&mut inner, "type", "mrkdwn");
    put_text(&mut inner, "text", section);
    let mut block: Vec<JsonMember> = Vec::new();
    put_text(&mut block, "type", "section");
    set_member(&mut block, "text".to_owned(), Json::Object(inner));
    let mut blocks: Vec<Json> = Vec::new();
    assert(json_views(blocks@) =~= Seq::<JsonView>::empty());
    push_item(&mut blocks, Json::Object(block));
    let mut m: Vec<JsonMember> = Vec::new();
    put_text(&mut m, "text", text);
    set_member(&mut m, "blocks".to_owned(), Json::Array(blocks));
    Json::Object(m)
}

impl SlackWebhook {
    /// The section of a Slack message about the lag.
    pub open spec fn alert_section(payload: WebhookPayload) -> Seq<char> {
        "*"@ + uppercase(payload.alert@) + "* "@ + payload.network@ + " ("@ + dec(
            payload.lag_ledgers as nat,
        ) + " ledgers behind, threshold "@ + dec(payload.lag_threshold as nat) + ")\n"@
            + payload.message@
    }

    /// The section of a Slack message about the RPC endpoints.
    pub open spec fn degraded_section(payload: RpcDegradedPayload) -> Seq<char> {
        "*"@ + uppercase(payload.alert@) + "* "@ + payload.network@
            + " - All RPC endpoints critically degraded (health score < 20)\n"@ + payload.message@
    }

    /// What is posted for an alert about the lag.
    pub open spec fn alert_json(self, payload: WebhookPayload) -> JsonView {
        slack_json(payload.text@, Self::alert_section(payload))
    }

    /// What is posted for the end of a lag: the text alone.
    pub open spec fn recovery_json(self, payload: RecoveryPayload) -> JsonView {
        JsonView::Object(Map::empty().insert("text"@, JsonView::String(payload.text@)))
    }

    /// What is posted for an alert about the RPC endpoints, or its end.
    pub open spec fn degraded_json(self, payload: RpcDegradedPayload) -> JsonView {
        slack_json(payload.text@, Self::degraded_section(payload))
    }
}

impl AlertSink for SlackWebhook {
    /// What is posted for an alert about the lag.
    fn alert_body(&self, payload: &WebhookPayload) -> (r: Json)
        ensures
            r@ == self.alert_json(*payload),
    {
        let mut section = "*".to_owned();
        section.append(to_uppercase(payload.alert).as_str());
        section.append("* ");
        section.append(payload.network.as_str());
        section.append(" (");
        push_dec(&mut section, payload.lag_ledgers as u128);
        section.append(" ledgers behind, threshold ");
        push_dec(&mut section, payload.lag_threshold as u128);
        section.append(")\n");
        section.append(payload.message.as_str());
        slack_body(payload.text.as_str(), section.as_str())
    }

    /// What is posted for the end of a lag: the text alone.
    fn recovery_body(&self, payload: &RecoveryPayload) -> (r: Json)
        ensures
            r@ == self.recovery_json(*payload),
    {
        let mut m: Vec<JsonMember> = Vec::new();
        put_text(&mut m, "text", payload.text.as_str());
        Json::Object(m)
    }

    /// What is posted for an alert about the RPC endpoints.
    fn degraded_body(&self, payload: &RpcDegradedPayload) -> (r: Json)
        ensures
            r@ == self.degraded_json(*payload),
    {
        let mut section = "*".to_owned();
        section.append(to_uppercase(payload.alert).as_str());
        section.append("* ");
        section.append(payload.network.as_str());
        section.append(" - All RPC endpoints critically degraded (health score < 20)\n");
        section.append(payload.message.as_str());
        slack_body(payload.text.as_str(), section.as_str())
    }
}

impl PagerDuty {
    /// The severity as PagerDuty knows it: anything unknown is information.
    pub open spec fn known_severity(severity: Seq<char>) -> Seq<char> {
        if severity == "critical"@ {
            "critical"@
        } else if severity == "warning"@ {
            "warning"@
        } else {
            "info"@
        }
    }

    /// An event of PagerDuty.
    pub open spec fn event_json(
        routing_key: Seq<char>,
        action: Seq<char>,
        dedup_key: Seq<char>,
        payload: JsonView,
    ) -> JsonView {
        JsonView::Object(
            Map::empty().insert("routing_key"@, JsonView::String(routing_key)).insert(
                "event_action"@,
                JsonView::String(action),
            ).insert("dedup_key"@, JsonView::String(dedup_key)).insert("payload"@, payload),
        )
    }

    /// The payload of an event that triggers an alert.
    pub open spec fn trigger_json(
        severity: Seq<char>,
        summary: Seq<char>,
        source: Seq<char>,
        timestamp: Seq<char>,
        details: JsonView,
    ) -> JsonView {
        JsonView::Object(
            Map::empty().insert("type"@, JsonView::String("alert"@)).insert(
                "severity"@,
                JsonView::String(severity),
            ).insert("summary"@, JsonView::String(summary)).insert(
                "source"@,
                JsonView::String(source),
            ).insert("timestamp"@, JsonView::String(timestamp)).insert("custom_details"@, details),
        )
    }

    /// What is posted for an alert about the lag.
    pub open spec fn alert_json(self, payload: WebhookPayload) -> JsonView {
        let details = JsonView::Object(
            Map::empty().insert("lag_ledgers"@, JsonView::Number(payload.lag_ledgers as int)).insert(
                "chain_tip_ledger"@,
                JsonView::Number(payload.chain_tip_ledger as int),
            ).insert(
                "last_indexed_ledger"@,
                JsonView::Number(payload.last_indexed_ledger as int),
            ).insert("lag_threshold"@, JsonView::Number(payload.lag_threshold as int)),
        );
        Self::event_json(
            self.routing_key@,
            "trigger"@,
            payload.network@ + "-"@ + payload.indexer@ + "-lag"@,
            Self::trigger_json(
                Self::known_severity(payload.severity@),
                payload.text@,
                payload.indexer@,
                payload.timestamp@,
                details,
            ),
        )
    }

    /// What is posted for the end of a lag.
    pub open spec fn recovery_json(self, payload: RecoveryPayload) -> JsonView {
        Self::event_json(
            self.routing_key@,
            "resolve"@,
            "trident-indexer-lag-"@ + dec(payload.lag_ledgers as nat),
            JsonView::Object(
                Map::empty().insert("type"@, JsonView::String("alert"@)).insert(
                    "summary"@,
                    JsonView::String(payload.text@),
                ).insert("source"@, JsonView::String("trident-indexer"@)).insert(
                    "timestamp"@,
                    JsonView::String(payload.timestamp@),
                ),
            ),
        )
    }

    /// What is posted for an alert about the RPC endpoints, or its end.
    pub open spec fn degraded_json(self, payload: RpcDegradedPayload) -> JsonView {
        let details = JsonView::Object(
            Map::empty().insert("network"@, JsonView::String(payload.network@)).insert(
                "alert_type"@,
                JsonView::String("rpc_all_degraded"@),
            ),
        );
        Self::event_json(
            self.routing_key@,
            "trigger"@,
            payload.network@ + "-"@ + payload.indexer@ + "-rpc-degraded"@,
            Self::trigger_json(
                "critical"@,
                payload.text@,
                payload.indexer@,
                payload.timestamp@,
                details,
            ),
        )
    }

    fn event(&self, action: &str, dedup_key: &str, payload: Json) -> (r: Json)
        ensures
            r@ == Self::event_json(self.routing_key@, action@, dedup_key@, payload@),
    {
        let mut m: Vec<JsonMember> = Vec::new();
        put_text(&mut m, "routing_key", self.routing_key.as_str());
        put_text(&mut m, "event_action", action);
        put_text(&mut m, "dedup_key", dedup_key);
        set_member(&mut m, "payload".to_owned(), payload);
        Json::Object(m)
    }

    fn trigger(severity: &str, summary: &str, source: &str, timestamp: &str, details: Json) -> (r:
        Json)
        ensures
            r@ == Self::trigger_json(severity@, summary@, source@, timestamp@, details@),
    {
        let mut m: Vec<JsonMember> = Vec::new();
        put_text(&mut m, "type", "alert");
        put_text(&mut m, "severity", severity);
        put_text(&mut m, "summary", summary);
        put_text(&mut m, "source", source);
        put_text(&mut m, "timestamp", timestamp);
        set_member(&mut m, "custom_details".to_owned(), details);
        Json::Object(m)
    }
}

impl AlertSink for PagerDuty {
    /// What is posted for an alert about the lag.
    fn alert_body(&self, payload: &WebhookPayload) -> (r: Json)
        ensures
            r@ == self.alert_json(*payload),
    {
        let severity = if same(payload.severity.as_str(), "critical") {
            "critical"
        } else if same(payload.severity.as_str(), "warning") {
            "warning"
        } else {
            "info"
        };
        let mut details: Vec<JsonMember> = Vec::new();
        put_number(&mut details, "lag_ledgers", payload.lag_ledgers as i128);
        put_number(&mut details, "chain_tip_ledger", payload.chain_tip_ledger as i128);
        put_number(&mut details, "last_indexed_ledger", payload.last_indexed_ledger as i128);
        put_number(&mut details, "lag_threshold", payload.lag_threshold as i128);
        let mut dedup_key = payload.network.clone();
        dedup_key.append("-");
        dedup_key.append(payload.indexer);
        dedup_key.append("-lag");
        let inner = Self::trigger(
            severity,
            payload.text.as_str(),
            payload.indexer,
            payload.timestamp.as_str(),
            Json::Object(details),
        );
        self.event("trigger", dedup_key.as_str(), inner)
    }

    /// What is posted for the end of a lag.
    fn recovery_body(&self, payload: &RecoveryPayload) -> (r: Json)
        ensures
            r@ == self.recovery_json(*payload),
    {
        let mut dedup_key = "trident-indexer-lag-".to_owned();
        push_dec(&mut dedup_key, payload.lag_ledgers as u128);
        let mut m: Vec<JsonMember> = Vec::new();
        put_text(&mut m, "type", "alert");
        put_text(&mut m, "summary", payload.text.as_str());
        put_text(&mut m, "source", "trident-indexer");
        put_text(&mut m, "timestamp", payload.timestamp.as_str());
        self.event("resolve", dedup_key.as_str(), Json::Object(m))
    }

    /// What is posted for an alert about the RPC endpoints, or its end.
    fn degraded_body(&self, payload: &RpcDegradedPayload) -> (r: Json)
        ensures
            r@ == self.degraded_json(*payload),
    {
        let mut details: Vec<JsonMember> = Vec::new();
        put_text(&mut details, "network", payload.network.as_str());
        put_text(&mut details, "alert_type", "rpc_all_degraded");
        let mut dedup_key = payload.network.clone();
        dedup_key.append("-");
        dedup_key.append(payload.indexer);
        dedup_key.append("-rpc-degraded");
        let inner = Self::trigger(
            "critical",
            payload.text.as_str(),
            payload.indexer,
            payload.timestamp.as_str(),
            Json::Object(details),
        );
        self.event("trigger", dedup_key.as_str(), inner)
    }
}

/// One of the sinks that are built in.
#[derive(Debug)]
pub enum Sink {
    Generic(GenericWebhook),
    Slack(SlackWebhook),
    PagerDuty(PagerDuty),
}

impl Sink {
    /// What is posted for an alert about the lag.
    pub open spec fn alert_json(self, payload: WebhookPayload) -> JsonView {
        match self {
            Sink::Generic(s) => s.alert_json(payload),
            Sink::Slack(s) => s.alert_json(payload),
            Sink::PagerDuty(s) => s.alert_json(payload),
        }
    }

    /// What is posted for the end of a lag.
    pub open spec fn recovery_json(self, payload: RecoveryPayload) -> JsonView {
        match self {
            Sink::Generic(s) => s.recovery_json(payload),
            Sink::Slack(s) => s.recovery_json(payload),
            Sink::PagerDuty(s) => s.recovery_json(payload),
        }
    }

    /// What is posted for an alert about the RPC endpoints, or its end.
    pub open spec fn degraded_json(self, payload: RpcDegradedPayload) -> JsonView {
        match self {
            Sink::Generic(s) => s.degraded_json(payload),
            Sink::Slack(s) => s.degraded_json(payload),
            Sink::PagerDuty(s) => s.degraded_json(payload),
        }
    }
}

impl AlertSink for Sink {
    fn alert_body(&self, payload: &WebhookPayload) -> (r: Json)
        ensures
            r@ == self.alert_json(*payload),
    {
        match self {
            Sink::Generic(s) => s.alert_body(payload),
            Sink::Slack(s) => s.alert_body(payload),
            Sink::PagerDuty(s) => s.alert_body(payload),
        }
    }

    fn recovery_body(&self, payload: &RecoveryPayload) -> (r: Json)
        ensures
            r@ == self.recovery_json(*payload),
    {
        match self {
            Sink::Generic(s) => s.recovery_body(payload),
            Sink::Slack(s) => s.recovery_body(payload),
            Sink::PagerDuty(s) => s.recovery_body(payload),
        }
    }

    fn degraded_body(&self, payload: &RpcDegradedPayload) -> (r: Json)
        ensures
            r@ == self.degraded_json(*payload),
    {
        match self {
            Sink::Generic(s) => s.degraded_body(payload),
            Sink::Slack(s) => s.degraded_body(payload),
            Sink::PagerDuty(s) => s.degraded_body(payload),
        }
    }
}

// ---------------------------------------------------------------------------------------------
// The alerter.
// ---------------------------------------------------------------------------------------------
/// The alerting of an indexer. Without sinks it does nothing.
#[derive(Debug)]
pub struct Alerter<S = Sink> {
    sinks: Vec<S>,
    urls: Vec<String>,
    cooldown_secs: u64,
}

/// What an alerter is set up with.
pub struct AlerterView<S> {
    pub sinks: Seq<S>,
    pub urls: Seq<Seq<char>>,
    /// The time in which no second alert goes out, in nanoseconds.
    pub cooldown: int,
}

impl<S> View for Alerter<S> {
    type V = AlerterView<S>;

    closed spec fn view(&self) -> AlerterView<S> {
        AlerterView {
            sinks: self.sinks@,
            urls: views(self.urls@),
            cooldown: self.cooldown_secs * 1_000_000_000,
        }
    }
}

impl<S> AlerterView<S> {
    /// Whether there is a sink.
    pub open spec fn enabled(self) -> bool {
        self.sinks.len() > 0
    }

    /// The number of deliveries of an alert: one to each sink that has a URL.
    pub open spec fn deliveries(self) -> nat {
        if self.sinks.len() <= self.urls.len() {
            self.sinks.len()
        } else {
            self.urls.len()
        }
    }

    /// Whether an alert is held back because of the last one.
    pub open spec fn cooling(self, last: Option<Timestamp>, now: Timestamp) -> bool {
        last is Some && elapsed(last->0, now) < self.cooldown
    }

    /// Whether an alert about the lag is due.
    pub open spec fn lag_fires(self, ctx: AlertContext, state: AlertState, now: Timestamp) -> bool {
        self.enabled() && ctx.lag() > ctx.lag_threshold && !self.cooling(state.last_alert_at, now)
    }

    /// Whether the end of a lag is due.
    pub open spec fn lag_resolves(self, ctx: AlertContext, state: AlertState) -> bool {
        self.enabled() && ctx.lag() <= ctx.lag_threshold && state.alert_fired
    }

    /// Whether an alert about the RPC endpoints is due.
    pub open spec fn rpc_fires(self, ctx: AlertContext, state: AlertState, now: Timestamp) -> bool {
        self.enabled() && ctx.rpc_all_degraded && !self.cooling(
            state.rpc_degraded_last_alert_at,
            now,
        )
    }

    /// Whether the end of an alert about the RPC endpoints is due.
    pub open spec fn rpc_resolves(self, ctx: AlertContext, state: AlertState) -> bool {
        self.enabled() && !ctx.rpc_all_degraded && state.rpc_degraded_fired
    }
}

impl AlertState {
    /// The state once what was due about the lag was sent. What reached no sink is forgotten.
    pub open spec fn after_lag(
        self,
        fires: bool,
        resolves: bool,
        posted_any: bool,
        now: Timestamp,
    ) -> AlertState {
        if !posted_any {
            self
        } else if fires {
            AlertState { last_alert_at: Some(now), alert_fired: true, ..self }
        } else if resolves {
            AlertState { last_alert_at: None, alert_fired: false, ..self }
        } else {
            self
        }
    }

    /// The state once what was due about the RPC endpoints was sent.
    pub open spec fn after_rpc(
        self,
        fires: bool,
        resolves: bool,
        posted_any: bool,
        now: Timestamp,
    ) -> AlertState {
        if !posted_any {
            self
        } else if fires {
            AlertState {
                rpc_degraded_last_alert_at: Some(now),
                rpc_degraded_fired: true,
                ..self
            }
        } else if resolves {
            AlertState { rpc_degraded_last_alert_at: None, rpc_degraded_fired: false, ..self }
        } else {
            self
        }
    }

    /// Records that what was due about the lag was sent.
    pub fn record_lag(&mut self, action: &LagAction, posted_any: bool, now: Timestamp)
        ensures
            *final(self) == old(self).after_lag(action is Fire, action is Resolve, posted_any, now),
    {
        if posted_any {
            match action {
                LagAction::Fire(_) => {
                    self.last_alert_at = Some(now);
                    self.alert_fired = true;
                },
                LagAction::Resolve(_) => {
                    self.alert_fired = false;
                    self.last_alert_at = None;
                },
                LagAction::Nothing => {},
            }
        }
    }

    /// Records that what was due about the RPC endpoints was sent.
    pub fn record_rpc(&mut self, action: &RpcAction, posted_any: bool, now: Timestamp)
        ensures
            *final(self) == old(self).after_rpc(action is Fire, action is Resolve, posted_any, now),
    {
        if posted_any {
            match action {
                RpcAction::Fire(_) => {
                    self.rpc_degraded_last_alert_at = Some(now);
                    self.rpc_degraded_fired = true;
                },
                RpcAction::Resolve(_) => {
                    self.rpc_degraded_fired = false;
                    self.rpc_degraded_last_alert_at = None;
                },
                RpcAction::Nothing => {},
            }
        }
    }
}

/// Whether a body is what a sink makes of an action about the lag.
pub open spec fn lag_body_of<S: AlertSink>(sink: S, action: LagAction, body: Json) -> bool {
    match action {
        LagAction::Fire(p) => call_ensures(S::alert_body, (&sink, &p), body),
        LagAction::Resolve(p) => call_ensures(S::recovery_body, (&sink, &p), body),
        LagAction::Nothing => false,
    }
}

/// Whether a body is what a sink makes of an action about the RPC endpoints.
pub open spec fn rpc_body_of<S: AlertSink>(sink: S, action: RpcAction, body: Json) -> bool {
    match action {
        RpcAction::Fire(p) => call_ensures(S::degraded_body, (&sink, &p), body),
        RpcAction::Resolve(p) => call_ensures(S::degraded_body, (&sink, &p), body),
        RpcAction::Nothing => false,
    }
}

/// What goes to the sinks that are built in is the JSON of each.
pub proof fn built_in_sinks_get_their_json(
    sink: Sink,
    lag: LagAction,
    rpc: RpcAction,
    body: Json,
)
    ensures
        lag_body_of(sink, lag, body) ==> match lag {
            LagAction::Fire(p) => body@ == sink.alert_json(p),
            LagAction::Resolve(p) => body@ == sink.recovery_json(p),
            LagAction::Nothing => false,
        },
        rpc_body_of(sink, rpc, body) ==> match rpc {
            RpcAction::Fire(p) => body@ == sink.degraded_json(p),
            RpcAction::Resolve(p) => body@ == sink.degraded_json(p),
            RpcAction::Nothing => false,
        },
{
}

impl Alerter<Sink> {
    /// An alerter with one generic sink, or with none where no URL is given.
    pub fn from_config(
        webhook_url: Option<String>,
        lag_threshold: u64,
        cooldown_minutes: u64,
    ) -> (r: Self)
        requires
            cooldown_minutes * 60 <= u64::MAX,
        ensures
            r@.cooldown == cooldown_minutes * 60_000_000_000,
            match webhook_url {
                Some(url) => r@.sinks.len() == 1 && r@.sinks[0] is Generic && r@.urls == seq![url@],
                None => r@.sinks.len() == 0 && r@.urls.len() == 0,
            },
    {
        let mut sinks: Vec<Sink> = Vec::new();
        let mut urls: Vec<String> = Vec::new();
        if let Some(url) = webhook_url {
            sinks.push(Sink::Generic(GenericWebhook));
            urls.push(url);
        }
        let made = Self::from_sinks(sinks, urls, lag_threshold, cooldown_minutes);
        assert(webhook_url is Some ==> made@.urls =~= seq![webhook_url->0@]);
        made
    }
}

impl<S: AlertSink> Alerter<S> {
    /// An alerter with the given sinks, each with its URL. The threshold is that of the context of
    /// each evaluation.
    pub fn from_sinks(
        sinks: Vec<S>,
        urls: Vec<String>,
        lag_threshold: u64,
        cooldown_minutes: u64,
    ) -> (r: Self)
        requires
            cooldown_minutes * 60 <= u64::MAX,
        ensures
            r@.sinks == sinks@,
            r@.urls == views(urls@),
            r@.cooldown == cooldown_minutes * 60_000_000_000,
    {
        Alerter { sinks, urls, cooldown_secs: cooldown_minutes * 60 }
    }

    /// Whether there is a sink.
    pub fn is_enabled(&self) -> (r: bool)
        ensures
            r == self@.enabled(),
    {
        self.sinks.len() > 0
    }

    fn is_cooling(&self, last: Option<Timestamp>, now: Timestamp) -> (r: bool)
        ensures
            r == self@.cooling(last, now),
    {
        match last {
            Some(last) => elapsed_nanos(last, now) < self.cooldown_secs as i128 * 1_000_000_000,
            None => false,
        }
    }

    /// What is due about the lag. `stamp` is the present time as the alert gives it.
    pub fn lag_action(
        &self,
        ctx: &AlertContext,
        state: &AlertState,
        now: Timestamp,
        stamp: &str,
    ) -> (r: LagAction)
        ensures
            match r {
                LagAction::Fire(p) => self@.lag_fires(*ctx, *state, now) && p.alert@
                    == "indexer_lag"@ && p.severity@ == ctx.lag_severity().name() && p.indexer@
                    == "trident-indexer"@ && p.network@ == ctx.network@ && p.lag_ledgers
                    == ctx.lag() && p.last_indexed_ledger == ctx.last_ledger_indexed
                    && p.chain_tip_ledger == ctx.chain_tip_ledger && p.lag_threshold
                    == ctx.lag_threshold && p.timestamp@ == stamp@ && p.message@ == lag_text(*ctx)
                    && p.text@ == lag_text(*ctx),
                LagAction::Resolve(p) => self@.lag_resolves(*ctx, *state) && p.alert@
                    == "indexer_lag_resolved"@ && p.lag_ledgers == ctx.lag() && p.timestamp@
                    == stamp@ && p.message@ == recovery_text(ctx.lag() as nat) && p.text@
                    == recovery_text(ctx.lag() as nat),
                LagAction::Nothing => !self@.lag_fires(*ctx, *state, now) && !self@.lag_resolves(
                    *ctx,
                    *state,
                ),
            },
    {
        if !self.is_enabled() {
            return LagAction::Nothing;
        }
        let lag: u64 = ctx.chain_tip_ledger.saturating_sub(ctx.last_ledger_indexed);
        if lag > ctx.lag_threshold {
            if self.is_cooling(state.last_alert_at, now) {
                return LagAction::Nothing;
            }
            let severity = if lag as u128 > ctx.lag_threshold as u128 * 2 {
                Severity::Critical
            } else {
                Severity::Warning
            };
            let mut message = "Trident indexer is ".to_owned();
            push_dec(&mut message, lag as u128);
            message.append(" ledgers behind chain tip on ");
            message.append(ctx.network.as_str());
            message.append(" (threshold: ");
            push_dec(&mut message, ctx.lag_threshold as u128);
            message.append(")");
            LagAction::Fire(
                WebhookPayload {
                    alert: "indexer_lag",
                    severity: severity.as_str().to_owned(),
                    indexer: "trident-indexer",
                    network: ctx.network.clone(),
                    lag_ledgers: lag,
                    last_indexed_ledger: ctx.last_ledger_indexed,
                    chain_tip_ledger: ctx.chain_tip_ledger,
                    lag_threshold: ctx.lag_threshold,
                    timestamp: stamp.to_owned(),
                    message: message.clone(),
                    text: message,
                },
            )
        } else {
            if !state.alert_fired {
                return LagAction::Nothing;
            }
            let mut message = "Trident indexer has recovered. Lag is now ".to_owned();
            push_dec(&mut message, lag as u128);
            message.append(" ledgers.");
            LagAction::Resolve(
                RecoveryPayload {
                    alert: "indexer_lag_resolved",
                    lag_ledgers: lag,
                    timestamp: stamp.to_owned(),
                    message: message.clone(),
                    text: message,
                },
            )
        }
    }

    /// What is due about the RPC endpoints. `stamp` is the present time as the alert gives it.
    pub fn rpc_action(
        &self,
        ctx: &AlertContext,
        state: &AlertState,
        now: Timestamp,
        stamp: &str,
    ) -> (r: RpcAction)
        ensures
            match r {
                RpcAction::Fire(p) => self@.rpc_fires(*ctx, *state, now) && p.alert@
                    == "rpc_all_degraded"@ && p.severity@ == "critical"@ && p.indexer@
                    == "trident-indexer"@ && p.network@ == ctx.network@ && p.timestamp@ == stamp@
                    && p.message@ == degraded_text(ctx.network@) && p.text@ == degraded_text(
                    ctx.network@,
                ),
                RpcAction::Resolve(p) => self@.rpc_resolves(*ctx, *state) && p.alert@
                    == "rpc_all_degraded_resolved"@ && p.severity@ == "info"@ && p.indexer@
                    == "trident-indexer"@ && p.network@ == ctx.network@ && p.timestamp@ == stamp@
                    && p.message@ == restored_text(ctx.network@) && p.text@ == restored_text(
                    ctx.network@,
                ),
                RpcAction::Nothing => !self@.rpc_fires(*ctx, *state, now) && !self@.rpc_resolves(
                    *ctx,
                    *state,
                ),
            },
    {
        if !self.is_enabled() {
            return RpcAction::Nothing;
        }
        if ctx.rpc_all_degraded {
            if self.is_cooling(state.rpc_degraded_last_alert_at, now) {
                return RpcAction::Nothing;
            }
            let mut message =
                "All RPC endpoints are critically degraded (health score < 20) on ".to_owned();
            message.append(ctx.network.as_str());
            message.append(". The indexer may be unable to fetch events.");
            RpcAction::Fire(
                RpcDegradedPayload {
                    alert: "rpc_all_degraded",
                    severity: "critical".to_owned(),
                    indexer: "trident-indexer",
                    network: ctx.network.clone(),
                    timestamp: stamp.to_owned(),
                    message: message.clone(),
                    text: message,
                },
            )
        } else {
            if !state.rpc_degraded_fired {
                return RpcAction::Nothing;
            }
            let mut message = "RPC endpoints have recovered on ".to_owned();
            message.append(ctx.network.as_str());
            message.append(". At least one endpoint now has a health score >= 20.");
            RpcAction::Resolve(
                RpcDegradedPayload {
                    alert: "rpc_all_degraded_resolved",
                    severity: "info".to_owned(),
                    indexer: "trident-indexer",
                    network: ctx.network.clone(),
                    timestamp: stamp.to_owned(),
                    message: message.clone(),
                    text: message,
                },
            )
        }
    }

    /// The deliveries that an action about the lag calls for: where to, and what.
    pub fn lag_deliveries(&self, action: &LagAction) -> (r: Vec<(String, Json)>)
        ensures
            r@.len() == if action is Nothing {
                0
            } else {
                self@.deliveries()
            },
            forall|i: int|
                0 <= i < r@.len() ==> (#[trigger] r@[i]).0@ == self@.urls[i] && lag_body_of(
                    self@.sinks[i],
                    *action,
                    r@[i].1,
                ),
    {
        let mut out: Vec<(String, Json)> = Vec::new();
        if let LagAction::Nothing = action {
            return out;
        }
        let mut i: usize = 0;
        while i < self.sinks.len() && i < self.urls.len()
            invariant
                i <= self.sinks.len(),
                i <= self.urls.len(),
                !(action is Nothing),
                out@.len() == i,
                forall|k: int|
                    0 <= k < i ==> (#[trigger] out@[k]).0@ == self@.urls[k] && lag_body_of(
                        self@.sinks[k],
                        *action,
                        out@[k].1,
                    ),
            decreases self.sinks.len() - i,
        {
            let body = match action {
                LagAction::Fire(p) => self.sinks[i].alert_body(p),
                LagAction::Resolve(p) => self.sinks[i].recovery_body(p),
                LagAction::Nothing => Json::Null,
            };
            out.push((self.urls[i].clone(), body));
            i = i + 1;
        }
        out
    }

    /// The deliveries that an action about the RPC endpoints calls for: where to, and what.
    pub fn rpc_deliveries(&self, action: &RpcAction) -> (r: Vec<(String, Json)>)
        ensures
            r@.len() == if action is Nothing {
                0
            } else {
                self@.deliveries()
            },
            forall|i: int|
                0 <= i < r@.len() ==> (#[trigger] r@[i]).0@ == self@.urls[i] && rpc_body_of(
                    self@.sinks[i],
                    *action,
                    r@[i].1,
                ),
    {
        let mut out: Vec<(String, Json)> = Vec::new();
        if let RpcAction::Nothing = action {
            return out;
        }
        let mut i: usize = 0;
        while i < self.sinks.len() && i < self.urls.len()
            invariant
                i <= self.sinks.len(),
                i <= self.urls.len(),
                !(action is Nothing),
                out@.len() == i,
                forall|k: int|
                    0 <= k < i ==> (#[trigger] out@[k]).0@ == self@.urls[k] && rpc_body_of(
                        self@.sinks[k],
                        *action,
                        out@[k].1,
                    ),
            decreases self.sinks.len() - i,
        {
            let body = match action {
                RpcAction::Fire(p) => self.sinks[i].degraded_body(p),
                RpcAction::Resolve(p) => self.sinks[i].degraded_body(p),
                RpcAction::Nothing => Json::Null,
            };
            out.push((self.urls[i].clone(), body));
            i = i + 1;
        }
        out
    }
}

/// An alert about the lag that went out holds back the next one until the cooldown is over, also
/// where the clock was set back; after that the next one may go out.
pub proof fn alerts_respect_the_cooldown<S>(
    alerter: AlerterView<S>,
    ctx: AlertContext,
    state: AlertState,
    sent: Timestamp,
    now: Timestamp,
)
    requires
        alerter.cooldown > 0,
    ensures
        ({
            let after = state.after_lag(true, false, true, sent);
            &&& elapsed(sent, now) < alerter.cooldown ==> !alerter.lag_fires(ctx, after, now)
            &&& elapsed(sent, now) >= alerter.cooldown && alerter.enabled() && ctx.lag()
                > ctx.lag_threshold ==> alerter.lag_fires(ctx, after, now)
        }),
        ({
            let after = state.after_rpc(true, false, true, sent);
            &&& elapsed(sent, now) < alerter.cooldown ==> !alerter.rpc_fires(ctx, after, now)
            &&& elapsed(sent, now) >= alerter.cooldown && alerter.enabled() && ctx.rpc_all_degraded
                ==> alerter.rpc_fires(ctx, after, now)
        }),
{
}

/// Alert and recovery never go out together, no recovery goes out without an alert before it, one
/// that went out is not sent again, and a delivery that reached no sink changes nothing.
pub proof fn recoveries_follow_alerts<S>(
    alerter: AlerterView<S>,
    ctx: AlertContext,
    state: AlertState,
    now: Timestamp,
    fires: bool,
    resolves: bool,
)
    ensures
        !(alerter.lag_fires(ctx, state, now) && alerter.lag_resolves(ctx, state)),
        !(alerter.rpc_fires(ctx, state, now) && alerter.rpc_resolves(ctx, state)),
        !state.alert_fired ==> !alerter.lag_resolves(ctx, state),
        !state.rpc_degraded_fired ==> !alerter.rpc_resolves(ctx, state),
        !alerter.lag_resolves(ctx, state.after_lag(false, true, true, now)),
        !alerter.rpc_resolves(ctx, state.after_rpc(false, true, true, now)),
        state.after_lag(fires, resolves, false, now) == state,
        state.after_rpc(fires, resolves, false, now) == state,
{
}

/// The two alerts do not touch each other's state.
pub proof fn alerts_are_independent(
    state: AlertState,
    fires: bool,
    resolves: bool,
    posted_any: bool,
    now: Timestamp,
)
    ensures
        ({
            let lag = state.after_lag(fires, resolves, posted_any, now);
            let rpc = state.after_rpc(fires, resolves, posted_any, now);
            &&& lag.rpc_degraded_fired == state.rpc_degraded_fired
            &&& lag.rpc_degraded_last_alert_at == state.rpc_degraded_last_alert_at
            &&& rpc.alert_fired == state.alert_fired
            &&& rpc.last_alert_at == state.last_alert_at
        }),
{
}

// ---------------------------------------------------------------------------------------------
// A delivery.
// ---------------------------------------------------------------------------------------------
/// What came of an attempt to deliver.
#[derive(Debug, Clone, Copy, PartialEq, Eq, Structural)]
pub enum Attempt {
    /// The sink answered with an HTTP status.
    Answered { status: u16 },
    /// There was no answer.
    NetworkError,
}

/// What to do after an attempt.
#[derive(Debug, Clone, Copy, PartialEq, Eq, Structural)]
pub enum Verdict {
    Delivered,
    GiveUp,
    Retry,
}

/// What to do after the attempt with the given number: a status of success is a delivery, one of
/// the client's fault is final, and anything else is tried once more.
pub open spec fn verdict(attempt: Attempt, number: u8) -> Verdict {
    match attempt {
        Attempt::Answered { status } if 200 <= status <= 299 => Verdict::Delivered,
        Attempt::Answered { status } if 400 <= status <= 499 => Verdict::GiveUp,
        _ => if number >= 2 {
            Verdict::GiveUp
        } else {
            Verdict::Retry
        },
    }
}

/// What to do after the attempt with the given number.
pub fn judge(attempt: Attempt, number: u8) -> (r: Verdict)
    ensures
        r == verdict(attempt, number),
{
    if let Attempt::Answered { status } = attempt {
        if 200 <= status && status <= 299 {
            return Verdict::Delivered;
        }
        if 400 <= status && status <= 499 {
            return Verdict::GiveUp;
        }
    }
    if number >= 2 {
        Verdict::GiveUp
    } else {
        Verdict::Retry
    }
}

proof fn lemma_member_names_differ()
    ensures
        "alert"@ != "severity"@,
        "alert"@ != "indexer"@,
        "alert"@ != "network"@,
        "alert"@ != "lag_ledgers"@,
        "alert"@ != "last_indexed_ledger"@,
        "alert"@ != "chain_tip_ledger"@,
        "alert"@ != "lag_threshold"@,
        "alert"@ != "timestamp"@,
        "alert"@ != "message"@,
        "alert"@ != "text"@,
        "alert"@ != "type"@,
        "alert"@ != "source"@,
        "alert"@ != "summary"@,
        "alert"@ != "custom_details"@,
        "alert"@ != "routing_key"@,
        "alert"@ != "event_action"@,
        "alert"@ != "dedup_key"@,
        "alert"@ != "payload"@,
        "alert"@ != "alert_type"@,
        "alert"@ != "blocks"@,
        "severity"@ != "indexer"@,
        "severity"@ != "network"@,
        "severity"@ != "lag_ledgers"@,
        "severity"@ != "last_indexed_ledger"@,
        "severity"@ != "chain_tip_ledger"@,
        "severity"@ != "lag_threshold"@,
        "severity"@ != "timestamp"@,
        "severity"@ != "message"@,
        "severity"@ != "text"@,
        "severity"@ != "type"@,
        "severity"@ != "source"@,
        "severity"@ != "summary"@,
        "severity"@ != "custom_details"@,
        "severity"@ != "routing_key"@,
        "severity"@ != "event_action"@,
        "severity"@ != "dedup_key"@,
        "severity"@ != "payload"@,
        "severity"@ != "alert_type"@,
        "severity"@ != "blocks"@,
        "indexer"@ != "network"@,
        "indexer"@ != "lag_ledgers"@,
        "indexer"@ != "last_indexed_ledger"@,
        "indexer"@ != "chain_tip_ledger"@,
        "indexer"@ != "lag_threshold"@,
        "indexer"@ != "timestamp"@,
        "indexer"@ != "message"@,
        "indexer"@ != "text"@,
        "indexer"@ != "type"@,
        "indexer"@ != "source"@,
        "indexer"@ != "summary"@,
        "indexer"@ != "custom_details"@,
        "indexer"@ != "routing_key"@,
        "indexer"@ != "event_action"@,
        "indexer"@ != "dedup_key"@,
        "indexer"@ != "payload"@,
        "indexer"@ != "alert_type"@,
        "indexer"@ != "blocks"@,
        "network"@ != "lag_ledgers"@,
        "network"@ != "last_indexed_ledger"@,
        "network"@ != "chain_tip_ledger"@,
        "network"@ != "lag_threshold"@,
        "network"@ != "timestamp"@,
        "network"@ != "message"@,
        "network"@ != "text"@,
        "network"@ != "type"@,
        "network"@ != "source"@,
        "network"@ != "summary"@,
        "network"@ != "custom_details"@,
        "network"@ != "routing_key"@,
        "network"@ != "event_action"@,
        "network"@ != "dedup_key"@,
        "network"@ != "payload"@,
        "network"@ != "alert_type"@,
        "network"@ != "blocks"@,
        "lag_ledgers"@ != "last_indexed_ledger"@,
        "lag_ledgers"@ != "chain_tip_ledger"@,
        "lag_ledgers"@ != "lag_threshold"@,
        "lag_ledgers"@ != "timestamp"@,
        "lag_ledgers"@ != "message"@,
        "lag_ledgers"@ != "text"@,
        "lag_ledgers"@ != "type"@,
        "lag_ledgers"@ != "source"@,
        "lag_ledgers"@ != "summary"@,
        "lag_ledgers"@ != "custom_details"@,
        "lag_ledgers"@ != "routing_key"@,
        "lag_ledgers"@ != "event_action"@,
        "lag_ledgers"@ != "dedup_key"@,
        "lag_ledgers"@ != "payload"@,
        "lag_ledgers"@ != "alert_type"@,
        "lag_ledgers"@ != "blocks"@,
        "last_indexed_ledger"@ != "chain_tip_ledger"@,
        "last_indexed_ledger"@ != "lag_threshold"@,
        "last_indexed_ledger"@ != "timestamp"@,
        "last_indexed_ledger"@ != "message"@,
        "last_indexed_ledger"@ != "text"@,
        "last_indexed_ledger"@ != "type"@,
        "last_indexed_ledger"@ != "source"@,
        "last_indexed_ledger"@ != "summary"@,
        "last_indexed_ledger"@ != "custom_details"@,
        "last_indexed_ledger"@ != "routing_key"@,
        "last_indexed_ledger"@ != "event_action"@,
        "last_indexed_ledger"@ != "dedup_key"@,
        "last_indexed_ledger"@ != "payload"@,
        "last_indexed_ledger"@ != "alert_type"@,
        "last_indexed_ledger"@ != "blocks"@,
        "chain_tip_ledger"@ != "lag_threshold"@,
        "chain_tip_ledger"@ != "timestamp"@,
        "chain_tip_ledger"@ != "message"@,
        "chain_tip_ledger"@ != "text"@,
        "chain_tip_ledger"@ != "type"@,
        "chain_tip_ledger"@ != "source"@,
        "chain_tip_ledger"@ != "summary"@,
        "chain_tip_ledger"@ != "custom_details"@,
        "chain_tip_ledger"@ != "routing_key"@,
        "chain_tip_ledger"@ != "event_action"@,
        "chain_tip_ledger"@ != "dedup_key"@,
        "chain_tip_ledger"@ != "payload"@,
        "chain_tip_ledger"@ != "alert_type"@,
        "chain_tip_ledger"@ != "blocks"@,
        "lag_threshold"@ != "timestamp"@,
        "lag_threshold"@ != "message"@,
        "lag_threshold"@ != "text"@,
        "lag_threshold"@ != "type"@,
        "lag_threshold"@ != "source"@,
        "lag_threshold"@ != "summary"@,
        "lag_threshold"@ != "custom_details"@,
        "lag_threshold"@ != "routing_key"@,
        "lag_threshold"@ != "event_action"@,
        "lag_threshold"@ != "dedup_key"@,
        "lag_threshold"@ != "payload"@,
        "lag_threshold"@ != "alert_type"@,
        "lag_threshold"@ != "blocks"@,
        "timestamp"@ != "message"@,
        "timestamp"@ != "text"@,
        "timestamp"@ != "type"@,
        "timestamp"@ != "source"@,
        "timestamp"@ != "summary"@,
        "timestamp"@ != "custom_details"@,
        "timestamp"@ != "routing_key"@,
        "timestamp"@ != "event_action"@,
        "timestamp"@ != "dedup_key"@,
        "timestamp"@ != "payload"@,
        "timestamp"@ != "alert_type"@,
        "timestamp"@ != "blocks"@,
        "message"@ != "text"@,
        "message"@ != "type"@,
        "message"@ != "source"@,
        "message"@ != "summary"@,
        "message"@ != "custom_details"@,
        "message"@ != "routing_key"@,
        "message"@ != "event_action"@,
        "message"@ != "dedup_key"@,
        "message"@ != "payload"@,
        "message"@ != "alert_type"@,
        "message"@ != "blocks"@,
        "text"@ != "type"@,
        "text"@ != "source"@,
        "text"@ != "summary"@,
        "text"@ != "custom_details"@,
        "text"@ != "routing_key"@,
        "text"@ != "event_action"@,
        "text"@ != "dedup_key"@,
        "text"@ != "payload"@,
        "text"@ != "alert_type"@,
        "text"@ != "blocks"@,
        "type"@ != "source"@,
        "type"@ != "summary"@,
        "type"@ != "custom_details"@,
        "type"@ != "routing_key"@,
        "type"@ != "event_action"@,
        "type"@ != "dedup_key"@,
        "type"@ != "payload"@,
        "type"@ != "alert_type"@,
        "type"@ != "blocks"@,
        "source"@ != "summary"@,
        "source"@ != "custom_details"@,
        "source"@ != "routing_key"@,
        "source"@ != "event_action"@,
        "source"@ != "dedup_key"@,
        "source"@ != "payload"@,
        "source"@ != "alert_type"@,
        "source"@ != "blocks"@,
        "summary"@ != "custom_details"@,
        "summary"@ != "routing_key"@,
        "summary"@ != "event_action"@,
        "summary"@ != "dedup_key"@,
        "summary"@ != "payload"@,
        "summary"@ != "alert_type"@,
        "summary"@ != "blocks"@,
        "custom_details"@ != "routing_key"@,
        "custom_details"@ != "event_action"@,
        "custom_details"@ != "dedup_key"@,
        "custom_details"@ != "payload"@,
        "custom_details"@ != "alert_type"@,
        "custom_details"@ != "blocks"@,
        "routing_key"@ != "event_action"@,
        "routing_key"@ != "dedup_key"@,
        "routing_key"@ != "payload"@,
        "routing_key"@ != "alert_type"@,
        "routing_key"@ != "blocks"@,
        "event_action"@ != "dedup_key"@,
        "event_action"@ != "payload"@,
        "event_action"@ != "alert_type"@,
        "event_action"@ != "blocks"@,
        "dedup_key"@ != "payload"@,
        "dedup_key"@ != "alert_type"@,
        "dedup_key"@ != "blocks"@,
        "payload"@ != "alert_type"@,
        "payload"@ != "blocks"@,
        "alert_type"@ != "blocks"@,
{
    reveal_strlit("alert");
    reveal_strlit("severity");
    reveal_strlit("indexer");
    reveal_strlit("network");
    reveal_strlit("lag_ledgers");
    reveal_strlit("last_indexed_ledger");
    reveal_strlit("chain_tip_ledger");
    reveal_strlit("lag_threshold");
    reveal_strlit("timestamp");
    reveal_strlit("message");
    reveal_strlit("text");
    reveal_strlit("type");
    reveal_strlit("source");
    reveal_strlit("summary");
    reveal_strlit("custom_details");
    reveal_strlit("routing_key");
    reveal_strlit("event_action");
    reveal_strlit("dedup_key");
    reveal_strlit("payload");
    reveal_strlit("alert_type");
    reveal_strlit("blocks");
    assert("alert"@.len() == 5 && "alert"@[0] == 'a');
    assert("severity"@.len() == 8 && "severity"@[0] == 's');
    assert("indexer"@.len() == 7 && "indexer"@[0] == 'i');
    assert("network"@.len() == 7 && "network"@[0] == 'n');
    assert("lag_ledgers"@.len() == 11 && "lag_ledgers"@[0] == 'l');
    assert("last_indexed_ledger"@.len() == 19 && "last_indexed_ledger"@[0] == 'l');
    assert("chain_tip_ledger"@.len() == 16 && "chain_tip_ledger"@[0] == 'c');
    assert("lag_threshold"@.len() == 13 && "lag_threshold"@[0] == 'l');
    assert("timestamp"@.len() == 9 && "timestamp"@[0] == 't');
    assert("message"@.len() == 7 && "message"@[0] == 'm');
    assert("text"@.len() == 4 && "text"@[0] == 't');
    assert("type"@.len() == 4 && "type"@[0] == 't');
    assert("source"@.len() == 6 && "source"@[0] == 's');
    assert("summary"@.len() == 7 && "summary"@[0] == 's');
    assert("custom_details"@.len() == 14 && "custom_details"@[0] == 'c');
    assert("routing_key"@.len() == 11 && "routing_key"@[0] == 'r');
    assert("event_action"@.len() == 12 && "event_action"@[0] == 'e');
    assert("dedup_key"@.len() == 9 && "dedup_key"@[0] == 'd');
    assert("payload"@.len() == 7 && "payload"@[0] == 'p');
    assert("alert_type"@.len() == 10 && "alert_type"@[0] == 'a');
    assert("blocks"@.len() == 6 && "blocks"@[0] == 'b');
    assert("text"@[1] == 'e' && "type"@[1] == 'y');
}

/// An alert goes to a plain sink with each of its fields under its own name.
pub proof fn plain_sinks_get_every_field(
    sink: GenericWebhook,
    alert: WebhookPayload,
    recovery: RecoveryPayload,
    degraded: RpcDegradedPayload,
)
    ensures
        ({
            let j = Sink::Generic(sink).alert_json(alert);
            &&& member_of(j, "alert"@) == Some(JsonView::String(alert.alert@))
            &&& member_of(j, "severity"@) == Some(JsonView::String(alert.severity@))
            &&& member_of(j, "indexer"@) == Some(JsonView::String(alert.indexer@))
            &&& member_of(j, "network"@) == Some(JsonView::String(alert.network@))
            &&& member_of(j, "lag_ledgers"@) == Some(JsonView::Number(alert.lag_ledgers as int))
            &&& member_of(j, "last_indexed_ledger"@) == Some(
                JsonView::Number(alert.last_indexed_ledger as int),
            )
            &&& member_of(j, "chain_tip_ledger"@) == Some(
                JsonView::Number(alert.chain_tip_ledger as int),
            )
            &&& member_of(j, "lag_threshold"@) == Some(JsonView::Number(alert.lag_threshold as int))
            &&& member_of(j, "timestamp"@) == Some(JsonView::String(alert.timestamp@))
            &&& member_of(j, "message"@) == Some(JsonView::String(alert.message@))
            &&& member_of(j, "text"@) == Some(JsonView::String(alert.text@))
        }),
        ({
            let j = Sink::Generic(sink).recovery_json(recovery);
            &&& member_of(j, "alert"@) == Some(JsonView::String(recovery.alert@))
            &&& member_of(j, "lag_ledgers"@) == Some(JsonView::Number(recovery.lag_ledgers as int))
            &&& member_of(j, "timestamp"@) == Some(JsonView::String(recovery.timestamp@))
            &&& member_of(j, "message"@) == Some(JsonView::String(recovery.message@))
            &&& member_of(j, "text"@) == Some(JsonView::String(recovery.text@))
            &&& member_of(j, "severity"@) is None
        }),
        ({
            let j = Sink::Generic(sink).degraded_json(degraded);
            &&& member_of(j, "alert"@) == Some(JsonView::String(degraded.alert@))
            &&& member_of(j, "severity"@) == Some(JsonView::String(degraded.severity@))
            &&& member_of(j, "indexer"@) == Some(JsonView::String(degraded.indexer@))
            &&& member_of(j, "network"@) == Some(JsonView::String(degraded.network@))
            &&& member_of(j, "timestamp"@) == Some(JsonView::String(degraded.timestamp@))
            &&& member_of(j, "message"@) == Some(JsonView::String(degraded.message@))
            &&& member_of(j, "text"@) == Some(JsonView::String(degraded.text@))
            &&& member_of(j, "lag_ledgers"@) is None
        }),
{
    lemma_member_names_differ();
}

/// Slack gets the text of an alert, and one block with the alert in capitals, the network, the
/// numbers and the message. Of the end of a lag it gets the text alone.
pub proof fn slack_gets_text_and_section(
    sink: SlackWebhook,
    alert: WebhookPayload,
    recovery: RecoveryPayload,
    degraded: RpcDegradedPayload,
)
    ensures
        ({
            let j = Sink::Slack(sink).alert_json(alert);
            let blocks = member_of(j, "blocks"@);
            &&& member_of(j, "text"@) == Some(JsonView::String(alert.text@))
            &&& blocks is Some && blocks->0 is Array && blocks->0->Array_0.len() == 1
            &&& member_of(blocks->0->Array_0[0], "type"@) == Some(JsonView::String("section"@))
            &&& member_of(blocks->0->Array_0[0], "text"@) is Some
            &&& member_of(member_of(blocks->0->Array_0[0], "text"@)->0, "type"@) == Some(
                JsonView::String("mrkdwn"@),
            )
            &&& member_of(member_of(blocks->0->Array_0[0], "text"@)->0, "text"@) == Some(
                JsonView::String(
                    "*"@ + uppercase(alert.alert@) + "* "@ + alert.network@ + " ("@ + dec(
                        alert.lag_ledgers as nat,
                    ) + " ledgers behind, threshold "@ + dec(alert.lag_threshold as nat) + ")\n"@
                        + alert.message@,
                ),
            )
        }),
        Sink::Slack(sink).recovery_json(recovery) == JsonView::Object(
            map!["text"@ => JsonView::String(recovery.text@)],
        ),
        ({
            let j = Sink::Slack(sink).degraded_json(degraded);
            let blocks = member_of(j, "blocks"@);
            &&& member_of(j, "text"@) == Some(JsonView::String(degraded.text@))
            &&& blocks is Some && blocks->0 is Array && blocks->0->Array_0.len() == 1
            &&& member_of(blocks->0->Array_0[0], "text"@) is Some
            &&& member_of(member_of(blocks->0->Array_0[0], "text"@)->0, "text"@) == Some(
                JsonView::String(
                    "*"@ + uppercase(degraded.alert@) + "* "@ + degraded.network@
                        + " - All RPC endpoints critically degraded (health score < 20)\n"@
                        + degraded.message@,
                ),
            )
        }),
{
    lemma_member_names_differ();
    assert(Map::<Seq<char>, JsonView>::empty().insert("text"@, JsonView::String(recovery.text@))
        =~= map!["text"@ => JsonView::String(recovery.text@)]);
}

/// PagerDuty gets an event under the routing key of the sink: a trigger for an alert, with the
/// numbers of the lag as its details, and a resolve for the end of a lag.
pub proof fn pager_duty_gets_events(
    sink: PagerDuty,
    alert: WebhookPayload,
    recovery: RecoveryPayload,
    degraded: RpcDegradedPayload,
)
    ensures
        ({
            let j = Sink::PagerDuty(sink).alert_json(alert);
            let p = member_of(j, "payload"@);
            let d = member_of(p->0, "custom_details"@);
            &&& member_of(j, "routing_key"@) == Some(JsonView::String(sink.routing_key@))
            &&& member_of(j, "event_action"@) == Some(JsonView::String("trigger"@))
            &&& member_of(j, "dedup_key"@) == Some(
                JsonView::String(alert.network@ + "-"@ + alert.indexer@ + "-lag"@),
            )
            &&& p is Some
            &&& member_of(p->0, "type"@) == Some(JsonView::String("alert"@))
            &&& member_of(p->0, "severity"@) == Some(
                JsonView::String(
                    if alert.severity@ == "critical"@ || alert.severity@ == "warning"@ {
                        alert.severity@
                    } else {
                        "info"@
                    },
                ),
            )
            &&& member_of(p->0, "summary"@) == Some(JsonView::String(alert.text@))
            &&& member_of(p->0, "source"@) == Some(JsonView::String(alert.indexer@))
            &&& member_of(p->0, "timestamp"@) == Some(JsonView::String(alert.timestamp@))
            &&& d is Some
            &&& member_of(d->0, "lag_ledgers"@) == Some(JsonView::Number(alert.lag_ledgers as int))
            &&& member_of(d->0, "chain_tip_ledger"@) == Some(
                JsonView::Number(alert.chain_tip_ledger as int),
            )
            &&& member_of(d->0, "last_indexed_ledger"@) == Some(
                JsonView::Number(alert.last_indexed_ledger as int),
            )
            &&& member_of(d->0, "lag_threshold"@) == Some(
                JsonView::Number(alert.lag_threshold as int),
            )
        }),
        ({
            let j = Sink::PagerDuty(sink).recovery_json(recovery);
            let p = member_of(j, "payload"@);
            &&& member_of(j, "routing_key"@) == Some(JsonView::String(sink.routing_key@))
            &&& member_of(j, "event_action"@) == Some(JsonView::String("resolve"@))
            &&& member_of(j, "dedup_key"@) == Some(
                JsonView::String("trident-indexer-lag-"@ + dec(recovery.lag_ledgers as nat)),
            )
            &&& p is Some
            &&& member_of(p->0, "type"@) == Some(JsonView::String("alert"@))
            &&& member_of(p->0, "summary"@) == Some(JsonView::String(recovery.text@))
            &&& member_of(p->0, "source"@) == Some(JsonView::String("trident-indexer"@))
            &&& member_of(p->0, "timestamp"@) == Some(JsonView::String(recovery.timestamp@))
        }),
        ({
            let j = Sink::PagerDuty(sink).degraded_json(degraded);
            let p = member_of(j, "payload"@);
            let d = member_of(p->0, "custom_details"@);
            &&& member_of(j, "routing_key"@) == Some(JsonView::String(sink.routing_key@))
            &&& member_of(j, "event_action"@) == Some(JsonView::String("trigger"@))
            &&& member_of(j, "dedup_key"@) == Some(
                JsonView::String(degraded.network@ + "-"@ + degraded.indexer@ + "-rpc-degraded"@),
            )
            &&& p is Some
            &&& member_of(p->0, "severity"@) == Some(JsonView::String("critical"@))
            &&& member_of(p->0, "summary"@) == Some(JsonView::String(degraded.text@))
            &&& member_of(p->0, "source"@) == Some(JsonView::String(degraded.indexer@))
            &&& member_of(p->0, "timestamp"@) == Some(JsonView::String(degraded.timestamp@))
            &&& d is Some
            &&& member_of(d->0, "network"@) == Some(JsonView::String(degraded.network@))
            &&& member_of(d->0, "alert_type"@) == Some(JsonView::String("rpc_all_degraded"@))
        }),
{
    lemma_member_names_differ();
}

/// The lag is how far the tip is ahead, and never negative. It is critical from more than twice the
/// threshold on.
pub proof fn the_lag_is_the_distance_to_the_tip(ctx: AlertContext)
    ensures
        ctx.chain_tip_ledger >= ctx.last_ledger_indexed ==> ctx.last_ledger_indexed + ctx.lag()
            == ctx.chain_tip_ledger,
        ctx.chain_tip_ledger <= ctx.last_ledger_indexed ==> ctx.lag() == 0,
        ctx.lag_severity() == Severity::Critical <==> ctx.chain_tip_ledger
            > ctx.last_ledger_indexed + ctx.lag_threshold + ctx.lag_threshold,
        ctx.lag_severity() == Severity::Critical || ctx.lag_severity() == Severity::Warning,
        Severity::Info.name() == "info"@,
        Severity::Warning.name() == "warning"@,
        Severity::Critical.name() == "critical"@,
{
}

/// An alert about the lag is due just where the indexer is further behind than the threshold, there
/// is a sink, and none went out within the cooldown; the end of it is due once the indexer is not
/// further behind than that any more. Likewise for the RPC endpoints.
pub proof fn alerts_are_due_past_the_threshold<S>(
    alerter: AlerterView<S>,
    ctx: AlertContext,
    state: AlertState,
    now: Timestamp,
)
    ensures
        alerter.sinks.len() == 0 ==> !alerter.lag_fires(ctx, state, now) && !alerter.lag_resolves(
            ctx,
            state,
        ) && !alerter.rpc_fires(ctx, state, now) && !alerter.rpc_resolves(ctx, state),
        alerter.sinks.len() > 0 && state.last_alert_at is None ==> (alerter.lag_fires(ctx, state, now)
            <==> ctx.chain_tip_ledger > ctx.last_ledger_indexed + ctx.lag_threshold),
        alerter.lag_fires(ctx, state, now) ==> ctx.chain_tip_ledger > ctx.last_ledger_indexed
            + ctx.lag_threshold,
        alerter.sinks.len() > 0 && state.alert_fired ==> (alerter.lag_resolves(ctx, state)
            <==> ctx.chain_tip_ledger <= ctx.last_ledger_indexed + ctx.lag_threshold),
        alerter.sinks.len() > 0 && state.rpc_degraded_last_alert_at is None ==> alerter.rpc_fires(
            ctx,
            state,
            now,
        ) == ctx.rpc_all_degraded,
        alerter.sinks.len() > 0 && state.rpc_degraded_fired ==> alerter.rpc_resolves(ctx, state)
            == !ctx.rpc_all_degraded,
{
}

/// What was sent is remembered with its time, and its end makes it forgotten.
pub proof fn sent_alerts_are_remembered(state: AlertState, now: Timestamp)
    ensures
        state.after_lag(true, false, true, now).alert_fired,
        state.after_lag(true, false, true, now).last_alert_at == Some(now),
        !state.after_lag(false, true, true, now).alert_fired,
        state.after_lag(false, true, true, now).last_alert_at is None,
        state.after_lag(false, false, true, now) == state,
        state.after_rpc(true, false, true, now).rpc_degraded_fired,
        state.after_rpc(true, false, true, now).rpc_degraded_last_alert_at == Some(now),
        !state.after_rpc(false, true, true, now).rpc_degraded_fired,
        state.after_rpc(false, true, true, now).rpc_degraded_last_alert_at is None,
        state.after_rpc(false, false, true, now) == state,
{
}

/// Time is told in nanoseconds, and a time that lies ahead has not elapsed.
pub proof fn elapsed_time_is_in_nanoseconds(from: Timestamp, seconds: int, nanos: int, to: Timestamp)
    requires
        to.seconds == from.seconds + seconds,
        to.nanos == from.nanos + nanos,
    ensures
        seconds * 1_000_000_000 + nanos >= 0 ==> elapsed(from, to) == seconds * 1_000_000_000
            + nanos,
        seconds * 1_000_000_000 + nanos < 0 ==> elapsed(from, to) == 0,
{
}

/// The texts name the numbers and the network that they are about.
pub proof fn texts_name_their_subject(ctx: AlertContext, lag: nat, network: Seq<char>)
    ensures
        lag_text(ctx) == "Trident indexer is "@ + dec(ctx.lag() as nat)
            + " ledgers behind chain tip on "@ + ctx.network@ + " (threshold: "@ + dec(
            ctx.lag_threshold as nat,
        ) + ")"@,
        recovery_text(lag) == "Trident indexer has recovered. Lag is now "@ + dec(lag)
            + " ledgers."@,
        degraded_text(network)
            == "All RPC endpoints are critically degraded (health score < 20) on "@ + network
            + ". The indexer may be unable to fetch events."@,
        restored_text(network) == "RPC endpoints have recovered on "@ + network
            + ". At least one endpoint now has a health score >= 20."@,
{
}

/// A status of success is a delivery and one of the client's fault is final, at any attempt. All
/// else is tried once more and then given up.
pub proof fn deliveries_are_tried_twice(status: u16, number: u8)
    ensures
        verdict(Attempt::Answered { status }, number) == Verdict::Delivered <==> 200 <= status
            < 300,
        400 <= status < 500 ==> verdict(Attempt::Answered { status }, number) == Verdict::GiveUp,
        !(200 <= status < 300) && !(400 <= status < 500) ==> verdict(
            Attempt::Answered { status },
            number,
        ) == verdict(Attempt::NetworkError, number),
        verdict(Attempt::NetworkError, 1) == Verdict::Retry,
        number >= 2 ==> verdict(Attempt::NetworkError, number) == Verdict::GiveUp,
{
}

/// An alert about the lag carries the numbers of its context, each in its own place, and is sent
/// just where it is due. Its end carries the lag that is left.
pub proof fn lag_alerts_carry_their_context(
    alerter: Alerter<Sink>,
    ctx: AlertContext,
    state: AlertState,
    now: Timestamp,
    stamp: &str,
    r: LagAction,
)
    requires
        call_ensures(Alerter::<Sink>::lag_action, (&alerter, &ctx, &state, now, stamp), r),
    ensures
        r is Fire <==> alerter@.lag_fires(ctx, state, now),
        r is Resolve <==> alerter@.lag_resolves(ctx, state),
        r matches LagAction::Fire(p) ==> {
            &&& p.alert@ == "indexer_lag"@
            &&& p.indexer@ == "trident-indexer"@
            &&& p.network@ == ctx.network@
            &&& p.lag_ledgers == ctx.chain_tip_ledger - ctx.last_ledger_indexed
            &&& p.last_indexed_ledger == ctx.last_ledger_indexed
            &&& p.chain_tip_ledger == ctx.chain_tip_ledger
            &&& p.lag_threshold == ctx.lag_threshold
            &&& p.timestamp@ == stamp@
            &&& p.severity@ == if p.lag_ledgers > 2 * ctx.lag_threshold {
                "critical"@
            } else {
                "warning"@
            }
            &&& p.message@ == "Trident indexer is "@ + dec(p.lag_ledgers as nat)
                + " ledgers behind chain tip on "@ + ctx.network@ + " (threshold: "@ + dec(
                ctx.lag_threshold as nat,
            ) + ")"@
            &&& p.text@ == p.message@
        },
        r matches LagAction::Resolve(p) ==> {
            &&& p.alert@ == "indexer_lag_resolved"@
            &&& p.lag_ledgers == ctx.lag()
            &&& p.timestamp@ == stamp@
            &&& p.message@ == "Trident indexer has recovered. Lag is now "@ + dec(
                p.lag_ledgers as nat,
            ) + " ledgers."@
            &&& p.text@ == p.message@
        },
{
}

/// An alert about the RPC endpoints, and its end, carry the network, the time and the severity.
pub proof fn rpc_alerts_carry_their_context(
    alerter: Alerter<Sink>,
    ctx: AlertContext,
    state: AlertState,
    now: Timestamp,
    stamp: &str,
    r: RpcAction,
)
    requires
        call_ensures(Alerter::<Sink>::rpc_action, (&alerter, &ctx, &state, now, stamp), r),
    ensures
        r is Fire <==> alerter@.rpc_fires(ctx, state, now),
        r is Resolve <==> alerter@.rpc_resolves(ctx, state),
        r matches RpcAction::Fire(p) ==> {
            &&& ctx.rpc_all_degraded
            &&& p.alert@ == "rpc_all_degraded"@
            &&& p.severity@ == "critical"@
            &&& p.indexer@ == "trident-indexer"@
            &&& p.network@ == ctx.network@
            &&& p.timestamp@ == stamp@
            &&& p.message@ == degraded_text(ctx.network@)
            &&& p.text@ == p.message@
        },
        r matches RpcAction::Resolve(p) ==> {
            &&& !ctx.rpc_all_degraded
            &&& p.alert@ == "rpc_all_degraded_resolved"@
            &&& p.severity@ == "info"@
            &&& p.indexer@ == "trident-indexer"@
            &&& p.network@ == ctx.network@
            &&& p.timestamp@ == stamp@
            &&& p.message@ == restored_text(ctx.network@)
            &&& p.text@ == p.message@
        },
{
}

/// Each sink that has a URL gets its own form of an alert, at its own URL.
pub proof fn alerts_go_to_every_sink(
    alerter: Alerter<Sink>,
    payload: WebhookPayload,
    r: Vec<(String, Json)>,
    i: int,
)
    requires
        call_ensures(
            Alerter::<Sink>::lag_deliveries,
            (&alerter, &LagAction::Fire(payload)),
            r,
        ),
        0 <= i < alerter@.sinks.len(),
        alerter@.urls.len() >= alerter@.sinks.len(),
    ensures
        r@.len() == alerter@.sinks.len(),
        r@[i].0@ == alerter@.urls[i],
        r@[i].1@ == alerter@.sinks[i].alert_json(payload),
{
    assert(lag_body_of(alerter@.sinks[i], LagAction::Fire(payload), r@[i].1));
    built_in_sinks_get_their_json(
        alerter@.sinks[i],
        LagAction::Fire(payload),
        RpcAction::Nothing,
        r@[i].1,
    );
}

/// What went out is remembered and its end makes it forgotten; what reached no sink changes
/// nothing.
pub proof fn records_follow_what_went_out(
    s: &mut AlertState,
    action: LagAction,
    posted: bool,
    now: Timestamp,
)
    requires
        call_ensures(AlertState::record_lag, (s, &action, posted, now), ()),
    ensures
        !posted ==> *final(s) == *old(s),
        posted && action is Fire ==> final(s).alert_fired && final(s).last_alert_at == Some(now),
        posted && action is Resolve ==> !final(s).alert_fired && final(s).last_alert_at is None,
        final(s).rpc_degraded_fired == old(s).rpc_degraded_fired,
        final(s).rpc_degraded_last_alert_at == old(s).rpc_degraded_last_alert_at,
{
}

} // verus!
