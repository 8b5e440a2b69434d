//! What the RPC client makes of an answer: what it returns to its caller, and what the answer says
//! about the endpoint that gave it.
use vstd::prelude::*;

use crate::errors::ErrorSource;
use crate::errors::TridentError;
use crate::indexer::rpc::health::RpcHealthScorer;
use crate::indexer::rpc::health::ScorerView;
use crate::json::Json;
use crate::raw::RawEvent;
use crate::text::contains_text;
use crate::text::dec_int;
use crate::text::dec_int_text;
use crate::text::has_text;
use crate::text::occurs_at;
use crate::text::opt_view;
use crate::types::lowercase;
use crate::types::to_lowercase;

verus! {

broadcast use vstd::string::group_string_axioms;

/// A page of events, and the newest ledger that the endpoint knows.
#[derive(Debug)]
pub struct EventsPage {
    pub events: Vec<RawEvent>,
    pub latest_ledger: u64,
}

/// An entry of the ledger. Key and entry are base64 XDR.
#[derive(Debug)]
pub struct LedgerEntryResult {
    pub key: String,
    pub xdr: String,
}

/// A transaction. Envelope and result are base64 XDR, and absent where it was not found.
#[derive(Debug)]
pub struct GetTransactionResult {
    pub status: String,
    pub envelope_xdr: Option<String>,
    pub result_xdr: Option<String>,
}

/// The value that a simulated call returned, as base64 XDR.
#[derive(Debug)]
pub struct SimulateHostFunctionResult {
    pub xdr: String,
}

/// The outcome of a simulated transaction. A call that failed carries its error and no results.
#[derive(Debug)]
pub struct SimulateTransactionResult {
    pub error: Option<String>,
    pub results: Vec<SimulateHostFunctionResult>,
}

/// Settings of the HTTP transport. Times are milliseconds.
#[derive(Debug, Clone, Copy, PartialEq, Eq, Structural)]
pub struct RpcHttpSettings {
    pub connect_timeout: u64,
    pub request_timeout: u64,
    pub pool_idle_timeout: u64,
    pub pool_max_idle_per_host: usize,
    pub tcp_keepalive: u64,
}

impl Default for RpcHttpSettings {
    fn default() -> (r: Self)
        ensures
            r == (RpcHttpSettings {
                connect_timeout: 5_000,
                request_timeout: 30_000,
                pool_idle_timeout: 90_000,
                pool_max_idle_per_host: 8,
                tcp_keepalive: 60_000,
            }),
    {
        RpcHttpSettings {
            connect_timeout: 5_000,
            request_timeout: 30_000,
            pool_idle_timeout: 90_000,
            pool_max_idle_per_host: 8,
            tcp_keepalive: 60_000,
        }
    }
}

/// The coarse label of an HTTP status other than success.
pub open spec fn status_class(status: u16) -> Seq<char> {
    if status == 429 {
        "rate_limited"@
    } else if 400 <= status <= 499 {
        "http_4xx"@
    } else if 500 <= status <= 599 {
        "http_5xx"@
    } else {
        "other"@
    }
}

/// The coarse label of an HTTP status other than success.
pub fn classify_http_status(status: u16) -> (r: &'static str)
    ensures
        r@ == status_class(status),
{
    if status == 429 {
        "rate_limited"
    } else if 400 <= status && status <= 499 {
        "http_4xx"
    } else if 500 <= status && status <= 599 {
        "http_5xx"
    } else {
        "other"
    }
}

/// A call that failed, with the label under which the failure is counted.
#[derive(Debug)]
pub struct RpcFailure {
    pub error: TridentError,
    pub error_type: &'static str,
}

/// A request that got no answer: the transport's own report under the name of the call, with
/// timeouts told apart.
pub fn rpc_transport_error(report: String, timed_out: bool, context: &str) -> (r: RpcFailure)
    ensures
        r.error is RpcError,
        r.error->ledger is None,
        r.error.cause().text() == if timed_out {
            context@ + " timed out"@ + ": "@ + report@
        } else {
            context@ + ": "@ + report@
        },
        r.error_type@ == if timed_out {
            "timeout"@
        } else {
            "transport"@
        },
{
    let mut heading = context.to_owned();
    if timed_out {
        heading.append(" timed out");
        return RpcFailure {
            error: TridentError::rpc(ErrorSource::msg(report).context(heading)),
            error_type: "timeout",
        };
    }
    RpcFailure {
        error: TridentError::rpc(ErrorSource::msg(report).context(heading)),
        error_type: "transport",
    }
}

/// An answer with an HTTP status other than success. `status_text` is the status as it is shown,
/// with its reason.
pub fn status_error(context: &str, url: &str, status: u16, status_text: &str) -> (r: RpcFailure)
    ensures
        r.error is RpcError,
        r.error->ledger is None,
        r.error.cause().text() == context@ + ": endpoint "@ + url@ + " returned HTTP "@
            + status_text@,
        r.error_type@ == status_class(status),
{
    let mut message = context.to_owned();
    message.append(": endpoint ");
    message.append(url);
    message.append(" returned HTTP ");
    message.append(status_text);
    RpcFailure {
        error: TridentError::rpc(ErrorSource::msg(message)),
        error_type: classify_http_status(status),
    }
}

/// An error that the server reports in the body of its answer.
#[derive(Debug)]
pub struct JsonRpcError {
    pub code: i64,
    pub message: String,
}

/// The label of an error that the server reports, by its message in lower case: the message is the
/// only sign that a cursor was out of range.
pub open spec fn reported_class(lower: Seq<char>) -> Seq<char> {
    if has_text(lower, "cursor"@) {
        "invalid_cursor"@
    } else {
        "rpc_error"@
    }
}

/// The label of an error that the server reports, by its message in lower case.
pub fn classify_report(lower: &str) -> (r: &'static str)
    ensures
        r@ == reported_class(lower@),
{
    if contains_text(lower, "cursor") {
        "invalid_cursor"
    } else {
        "rpc_error"
    }
}

/// What a call returns once the server has answered: its result, unless it reports an error or
/// carries none.
pub fn unwrap_answer<R>(
    context: &str,
    error: Option<JsonRpcError>,
    result: Option<R>,
) -> (r: Result<R, RpcFailure>)
    ensures
        r is Ok <==> error is None && result is Some,
        match r {
            Ok(value) => result == Some(value),
            Err(f) => f.error is RpcError && f.error->ledger is None && match error {
                Some(e) => f.error.cause().text() == context@ + ": RPC error "@ + dec_int(
                    e.code as int,
                ) + ": "@ + e.message@ && f.error_type@ == reported_class(lowercase(e.message@)),
                None => f.error.cause().text() == context@ + ": empty result"@ && f.error_type@
                    == "empty_result"@,
            },
        },
{
    let mut message = context.to_owned();
    match error {
        Some(e) => {
            message.append(": RPC error ");
            let code = dec_int_text(e.code as i128);
            message.append(code.as_str());
            message.append(": ");
            message.append(e.message.as_str());
            let lower = to_lowercase(e.message.as_str());
            Err(
                RpcFailure {
                    error: TridentError::rpc(ErrorSource::msg(message)),
                    error_type: classify_report(lower.as_str()),
                },
            )
        },
        None => match result {
            Some(value) => Ok(value),
            None => {
                message.append(": empty result");
                Err(
                    RpcFailure {
                        error: TridentError::rpc(ErrorSource::msg(message)),
                        error_type: "empty_result",
                    },
                )
            },
        },
    }
}

/// Whether the text of an error tells of an HTTP status of the client or server error ranges.
pub open spec fn tells_of_status(text: Seq<char>) -> bool {
    has_text(text, "HTTP 4"@) || has_text(text, "HTTP 5"@)
}

/// Whether the text of an error tells of an error that the server reported. What comes before the
/// cause of an error ends in a colon, so the words of the heading alone are no such sign.
pub open spec fn tells_of_report(text: Seq<char>) -> bool {
    has_text(text, ": RPC error"@)
}

/// Whether the text of an error tells of a connection that was refused.
pub open spec fn tells_of_refusal(text: Seq<char>) -> bool {
    has_text(text, "connection refused"@) || has_text(text, "Connection refused"@)
}

/// The points that an endpoint loses for an error, by the text of the error. A refused connection
/// is looked for only where no other sign is found: what a server reports may hold its words. The
/// text of every error of the RPC holds the words of the last case.
pub open spec fn points(text: Seq<char>) -> Option<u8> {
    if has_text(text, "timed out"@) {
        Some(20u8)
    } else if tells_of_status(text) {
        Some(15u8)
    } else if tells_of_report(text) {
        Some(10u8)
    } else if tells_of_refusal(text) {
        Some(30u8)
    } else if has_text(text, "RPC error"@) {
        Some(10u8)
    } else {
        None
    }
}

/// An error of the RPC always costs its endpoint points: twenty where its text tells of a timeout,
/// else fifteen where it tells of an HTTP status of the client or server error ranges, else thirty
/// where it tells of a refused connection and of no error that the server reported, and else ten.
pub proof fn every_rpc_error_costs_points(e: TridentError)
    requires
        e is RpcError,
    ensures
        points(e.text()) == Some(
            if has_text(e.text(), "timed out"@) {
                20u8
            } else if tells_of_status(e.text()) {
                15u8
            } else if tells_of_refusal(e.text()) && !tells_of_report(e.text()) {
                30u8
            } else {
                10u8
            },
        ),
{
    reveal_strlit("RPC error");
    reveal_strlit("RPC error at ledger ");
    let heading = "RPC error"@;
    assert(e.heading().take(9) =~= heading);
    assert(e.text().subrange(0, 9) =~= heading) by {
        assert forall|i: int| 0 <= i < 9 implies e.text()[i] == heading[i] by {
            assert(e.heading().take(9)[i] == heading[i]);
        }
    }
    assert(occurs_at(e.text(), heading, 0));
}

/// An error that the server reported costs ten points whatever its message says, unless the text
/// tells of a timeout or of an HTTP status of the client or server error ranges.
pub proof fn reported_errors_cost_ten_points(
    e: TridentError,
    context: Seq<char>,
    code: int,
    message: Seq<char>,
)
    requires
        e is RpcError,
        e.cause().text() == context + ": RPC error "@ + dec_int(code) + ": "@ + message,
        !has_text(e.text(), "timed out"@),
        !tells_of_status(e.text()),
    ensures
        points(e.text()) == Some(10u8),
{
    reveal_strlit(": RPC error ");
    reveal_strlit(": RPC error");
    let at = (e.heading().len() + context.len()) as int;
    let words = ": RPC error"@;
    assert(e.text().subrange(at, at + words.len()) =~= words);
    assert(occurs_at(e.text(), words, at));
}

impl ScorerView {
    /// After an error that an endpoint gave: it loses the points that the error costs, if any.
    pub open spec fn complained_of(self, url: Seq<char>, text: Seq<char>, now: u128) -> ScorerView {
        match points(text) {
            Some(amount) => self.deducted(url, amount, now),
            None => self,
        }
    }

    /// After a page of events from an endpoint: a success, and a check that the endpoint does not
    /// lag behind the others.
    pub open spec fn page_received(
        self,
        url: Seq<char>,
        latest_ledger: u64,
        success: u128,
        check: u128,
    ) -> ScorerView {
        let s = self.succeeded(url, Some(latest_ledger), success);
        if s.is_stale(url, check) {
            s.deducted(url, 10u8, check)
        } else {
            s
        }
    }
}

impl RpcHealthScorer {
    /// Records an error of an endpoint at the given time, by the text of the error.
    pub fn record_error_at(&mut self, url: &str, error: &TridentError, now: u128)
        requires
            old(self).inv(),
            old(self)@.wf(),
            old(self)@.counts_failure(url@),
        ensures
            final(self).inv(),
            final(self)@.wf(),
            final(self)@ == old(self)@.complained_of(url@, error.text(), now),
    {
        let text = error.to_string();
        if contains_text(text.as_str(), "timed out") {
            self.deduct_at(url, 20, now);
        } else if contains_text(text.as_str(), "HTTP 4") || contains_text(text.as_str(), "HTTP 5") {
            self.deduct_at(url, 15, now);
        } else if contains_text(text.as_str(), ": RPC error") {
            self.deduct_at(url, 10, now);
        } else if contains_text(text.as_str(), "connection refused") || contains_text(
            text.as_str(),
            "Connection refused",
        ) {
            self.deduct_at(url, 30, now);
        } else if contains_text(text.as_str(), "RPC error") {
            self.deduct_at(url, 10, now);
        }
    }

    /// Records an error of an endpoint, by the text of the error.
    pub fn record_error(&mut self, url: &str, error: &TridentError)
        requires
            old(self).inv(),
            old(self)@.wf(),
            old(self)@.counts_failure(url@),
        ensures
            final(self).inv(),
            final(self)@.wf(),
            exists|now: u128|
                final(self)@ == #[trigger] old(self)@.complained_of(url@, error.text(), now),
    {
        let now: u128 = self.now();
        self.record_error_at(url, error, now);
    }

    /// Records that an endpoint answered with a page of events. The answer is whether its ledger
    /// turned out stale.
    pub fn record_page_at(&mut self, url: &str, latest_ledger: u64, success: u128, check: u128) -> (r:
        bool)
        requires
            old(self).inv(),
            old(self)@.wf(),
        ensures
            final(self).inv(),
            final(self)@.wf(),
            final(self)@ == old(self)@.page_received(url@, latest_ledger, success, check),
            r == old(self)@.succeeded(url@, Some(latest_ledger), success).is_stale(url@, check),
    {
        self.record_success_at(url, Some(latest_ledger), success);
        self.check_and_record_stale_at(url, check)
    }

    /// Records that an endpoint answered with a page of events.
    pub fn record_page(&mut self, url: &str, latest_ledger: u64) -> (r: bool)
        requires
            old(self).inv(),
            old(self)@.wf(),
        ensures
            final(self).inv(),
            final(self)@.wf(),
            exists|success: u128, check: u128|
                final(self)@ == #[trigger] old(self)@.page_received(
                    url@,
                    latest_ledger,
                    success,
                    check,
                ) && r == old(self)@.succeeded(url@, Some(latest_ledger), success).is_stale(
                    url@,
                    check,
                ),
    {
        let success: u128 = self.now();
        let check: u128 = self.now();
        self.record_page_at(url, latest_ledger, success, check)
    }
}

/// The hash of the ledger that was asked for, where the server knows the ledger.
pub fn first_hash(hashes: Vec<String>) -> (r: Option<String>)
    ensures
        match r {
            Some(hash) => hashes@.len() > 0 && hash@ == hashes@[0]@,
            None => hashes@.len() == 0,
        },
{
    if hashes.len() == 0 {
        None
    } else {
        Some(hashes[0].clone())
    }
}

/// Too many requests have a label of their own; other faults go by who is to blame.
pub proof fn statuses_are_told_apart(status: u16)
    ensures
        status_class(429) == "rate_limited"@,
        400 <= status < 500 && status != 429 ==> status_class(status) == "http_4xx"@,
        500 <= status < 600 ==> status_class(status) == "http_5xx"@,
        status < 400 || status >= 600 ==> status_class(status) == "other"@,
{
}

/// A report that speaks of a cursor, wherever in it, is about the cursor; any other is just an
/// error.
pub proof fn reports_of_a_cursor_are_told_apart(before: Seq<char>, after: Seq<char>, text: Seq<char>)
    ensures
        reported_class(before + "cursor"@ + after) == "invalid_cursor"@,
        !has_text(text, "cursor"@) ==> reported_class(text) == "rpc_error"@,
{
    let whole = before + "cursor"@ + after;
    let at = before.len() as int;
    assert(whole.subrange(at, at + "cursor"@.len()) =~= "cursor"@);
    assert(occurs_at(whole, "cursor"@, at));
}

/// A text tells of a status, a report or a refusal wherever in it the words stand.
pub proof fn signs_are_found_anywhere(before: Seq<char>, after: Seq<char>)
    ensures
        tells_of_status(before + "HTTP 4"@ + after),
        tells_of_status(before + "HTTP 5"@ + after),
        tells_of_report(before + ": RPC error"@ + after),
        tells_of_refusal(before + "connection refused"@ + after),
        tells_of_refusal(before + "Connection refused"@ + after),
        points(before + "timed out"@ + after) == Some(20u8),
{
    lemma_stands_in(before, "HTTP 4"@, after);
    lemma_stands_in(before, "HTTP 5"@, after);
    lemma_stands_in(before, ": RPC error"@, after);
    lemma_stands_in(before, "connection refused"@, after);
    lemma_stands_in(before, "Connection refused"@, after);
    lemma_stands_in(before, "timed out"@, after);
}

proof fn lemma_stands_in(before: Seq<char>, words: Seq<char>, after: Seq<char>)
    ensures
        has_text(before + words + after, words),
{
    let whole = before + words + after;
    let at = before.len() as int;
    assert(whole.subrange(at, at + words.len()) =~= words);
    assert(occurs_at(whole, words, at));
}

/// A page is a success of its endpoint, and costs it ten points where it turns out to lag behind
/// the others. An error costs it what its text says, and nothing where that says nothing.
pub proof fn pages_and_errors_score_their_endpoint(
    s: ScorerView,
    url: Seq<char>,
    ledger: u64,
    success: u128,
    check: u128,
    text: Seq<char>,
)
    ensures
        !s.succeeded(url, Some(ledger), success).is_stale(url, check) ==> s.page_received(
            url,
            ledger,
            success,
            check,
        ) == s.succeeded(url, Some(ledger), success),
        s.succeeded(url, Some(ledger), success).is_stale(url, check) ==> s.page_received(
            url,
            ledger,
            success,
            check,
        ) == s.succeeded(url, Some(ledger), success).deducted(url, 10u8, check),
        points(text) is None ==> s.complained_of(url, text, check) == s,
        points(text) is Some ==> s.complained_of(url, text, check) == s.deducted(
            url,
            points(text)->0,
            check,
        ),
{
}

/// A call that got no answer is told as a timeout where it was one and as a failure of the
/// transport otherwise.
pub proof fn unanswered_calls_are_told_apart(
    report: String,
    timed_out: bool,
    context: &str,
    r: RpcFailure,
)
    requires
        call_ensures(rpc_transport_error, (report, timed_out, context), r),
    ensures
        r.error is RpcError,
        timed_out ==> r.error_type@ == "timeout"@ && r.error.cause().text() == context@
            + " timed out"@ + ": "@ + report@,
        !timed_out ==> r.error_type@ == "transport"@ && r.error.cause().text() == context@ + ": "@
            + report@,
{
}

/// An answer with another status than success names the endpoint and the status.
pub proof fn refused_calls_name_the_endpoint(
    context: &str,
    url: &str,
    status: u16,
    status_text: &str,
    r: RpcFailure,
)
    requires
        call_ensures(status_error, (context, url, status, status_text), r),
    ensures
        r.error is RpcError,
        r.error.cause().text() == context@ + ": endpoint "@ + url@ + " returned HTTP "@
            + status_text@,
        status == 429 ==> r.error_type@ == "rate_limited"@,
        500 <= status < 600 ==> r.error_type@ == "http_5xx"@,
{
}

/// An answer is its result, unless the server reports an error, which goes before the result, or
/// there is no result.
pub proof fn answers_are_their_result(
    context: &str,
    error: Option<JsonRpcError>,
    result: Option<Json>,
    r: Result<Json, RpcFailure>,
)
    requires
        call_ensures(unwrap_answer::<Json>, (context, error, result), r),
    ensures
        error is None && result is Some ==> r is Ok && r->Ok_0 == result->0,
        error matches Some(e) ==> r is Err && r->Err_0.error.cause().text() == context@
            + ": RPC error "@ + dec_int(e.code as int) + ": "@ + e.message@,
        error is None && result is None ==> r is Err && r->Err_0.error_type@ == "empty_result"@
            && r->Err_0.error.cause().text() == context@ + ": empty result"@,
{
}

/// The hash of a list is the first one on it.
pub proof fn the_first_hash_is_taken(hashes: Vec<String>, r: Option<String>)
    requires
        call_ensures(first_hash, (hashes,), r),
    ensures
        hashes@.len() == 0 ==> r is None,
        hashes@.len() > 0 ==> opt_view(r) == Some(hashes@[0]@),
{
}

} // verus!
