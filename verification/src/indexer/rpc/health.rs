//! Scores of RPC endpoints by what they were seen to do, with a circuit breaker each.
//!
//! An endpoint starts with the full score, loses points with each failure and wins some back with
//! each success. After enough failures in a row its circuit opens, and for a while no request goes
//! to it; then one request may probe it. Requests go to the endpoint with the highest score.
use vstd::prelude::*;

use crate::clock::clock_start;
use crate::clock::nanos_since;
use crate::clock::MAX_DURATION;
use crate::errors::ErrorSource;
use crate::errors::TridentError;
use crate::text::same;
use crate::text::views;

verus! {

broadcast use vstd::string::group_string_axioms;

/// The score at the start, and the highest there is.
pub const MAX_SCORE: u8 = 100;

/// An endpoint below this score is critically degraded.
pub const ALL_DEGRADED_THRESHOLD: u8 = 20;

pub const DEDUCT_TIMEOUT: u8 = 20;

pub const DEDUCT_NON_200: u8 = 15;

pub const DEDUCT_STALE_LEDGER: u8 = 10;

pub const DEDUCT_RPC_ERROR: u8 = 10;

pub const DEDUCT_CONNECTION_REFUSED: u8 = 30;

pub const RECOVER_SUCCESS: u8 = 5;

/// After how many nanoseconds a ledger that did not advance is stale.
pub const STALE_LEDGER_THRESHOLD: u128 = 30_000_000_000;

/// The failures in a row that open a circuit.
pub const CIRCUIT_BREAKER_THRESHOLD: u32 = 5;

/// For how many nanoseconds a circuit stays open.
pub const CIRCUIT_BREAKER_OPEN_DURATION: u128 = 30_000_000_000;

/// The states of a circuit breaker.
#[derive(Debug, Clone, Copy, PartialEq, Eq, Structural)]
pub enum CircuitState {
    /// Requests pass.
    Closed,
    /// Requests are refused.
    Open,
    /// One request may probe whether the endpoint has recovered.
    HalfOpen,
}

/// The health of an endpoint. Times are nanoseconds since the scorer was made.
#[derive(Debug, Clone, Copy, PartialEq, Eq, Structural)]
pub struct EndpointHealth {
    pub score: u8,
    pub last_success: Option<u128>,
    pub last_ledger: Option<u64>,
    /// When it last told a ledger.
    pub last_report: Option<u128>,
    /// When the ledger that it told last advanced.
    pub last_advance: Option<u128>,
    pub circuit_state: CircuitState,
    pub consecutive_failures: u32,
    pub circuit_opened_at: Option<u128>,
}

/// The time from `then` to `now`, none where `then` is later.
pub open spec fn since(now: u128, then: u128) -> int {
    if now >= then {
        now - then
    } else {
        0
    }
}

impl EndpointHealth {
    /// The health at the start.
    pub open spec fn fresh() -> EndpointHealth {
        EndpointHealth {
            score: MAX_SCORE,
            last_success: None,
            last_ledger: None,
            last_report: None,
            last_advance: None,
            circuit_state: CircuitState::Closed,
            consecutive_failures: 0,
            circuit_opened_at: None,
        }
    }

    /// Whether a ledger is an advance over what the endpoint told before.
    pub open spec fn advances(self, ledger: u64) -> bool {
        match self.last_ledger {
            Some(before) => ledger > before,
            None => true,
        }
    }

    /// The health after a success that told the given ledger. A ledger that is told again is a
    /// report, and no advance.
    pub open spec fn recovered(self, ledger: Option<u64>, now: u128) -> EndpointHealth {
        EndpointHealth {
            score: if self.score + RECOVER_SUCCESS <= MAX_SCORE {
                (self.score + RECOVER_SUCCESS) as u8
            } else {
                MAX_SCORE
            },
            last_success: Some(now),
            consecutive_failures: 0,
            circuit_state: CircuitState::Closed,
            last_ledger: match ledger {
                Some(l) => Some(l),
                None => self.last_ledger,
            },
            last_report: match ledger {
                Some(_) => Some(now),
                None => self.last_report,
            },
            last_advance: match ledger {
                Some(l) => if self.advances(l) {
                    Some(now)
                } else {
                    self.last_advance
                },
                None => self.last_advance,
            },
            ..self
        }
    }

    /// The health after a failure that costs the given points.
    pub open spec fn deducted(self, amount: u8, now: u128) -> EndpointHealth {
        let failures = (self.consecutive_failures + 1) as u32;
        let trips = failures >= CIRCUIT_BREAKER_THRESHOLD;
        EndpointHealth {
            score: if self.score >= amount {
                (self.score - amount) as u8
            } else {
                0
            },
            consecutive_failures: failures,
            circuit_state: if trips {
                CircuitState::Open
            } else {
                self.circuit_state
            },
            circuit_opened_at: if trips {
                Some(now)
            } else {
                self.circuit_opened_at
            },
            ..self
        }
    }

    /// The health with a circuit that has been open long enough half open.
    pub open spec fn checked(self, now: u128) -> EndpointHealth {
        if self.circuit_state == CircuitState::Open && self.circuit_opened_at is Some && since(
            now,
            self.circuit_opened_at->0,
        ) >= CIRCUIT_BREAKER_OPEN_DURATION {
            EndpointHealth { circuit_state: CircuitState::HalfOpen, ..self }
        } else {
            self
        }
    }

    /// Whether the circuit goes with the failures: it is closed exactly while fewer failures in a
    /// row are counted than open it, and else it is known since when it has been open. Both times
    /// of a ledger are known exactly where the ledger is.
    pub open spec fn consistent(self) -> bool {
        &&& self.last_ledger is Some <==> self.last_report is Some
        &&& self.last_ledger is Some <==> self.last_advance is Some
        &&& self.circuit_state == CircuitState::Closed <==> self.consecutive_failures
            < CIRCUIT_BREAKER_THRESHOLD
        &&& self.consecutive_failures >= CIRCUIT_BREAKER_THRESHOLD ==> self.circuit_opened_at
            is Some
    }

    /// Whether the ledger of this endpoint is stale beside that of another: the other one has told
    /// a higher ledger lately, and this one has not advanced for long.
    pub open spec fn stale_beside(self, other: EndpointHealth, now: u128) -> bool {
        &&& self.last_ledger is Some && self.last_advance is Some
        &&& other.last_ledger is Some && other.last_report is Some
        &&& other.last_ledger->0 > self.last_ledger->0
        &&& since(now, other.last_report->0) < STALE_LEDGER_THRESHOLD
        &&& since(now, self.last_advance->0) > STALE_LEDGER_THRESHOLD
    }

    /// Whether this endpoint is to be preferred: by its score, else by its last success.
    pub open spec fn better(self, other: EndpointHealth) -> bool {
        if self.score != other.score {
            self.score > other.score
        } else {
            match (self.last_success, other.last_success) {
                (Some(mine), Some(its)) => mine > its,
                (Some(_), None) => true,
                (None, _) => false,
            }
        }
    }

    fn new() -> (r: Self)
        ensures
            r == EndpointHealth::fresh(),
    {
        EndpointHealth {
            score: MAX_SCORE,
            last_success: None,
            last_ledger: None,
            last_report: None,
            last_advance: None,
            circuit_state: CircuitState::Closed,
            consecutive_failures: 0,
            circuit_opened_at: None,
        }
    }

    fn recover(self, ledger: Option<u64>, now: u128) -> (r: Self)
        ensures
            r == self.recovered(ledger, now),
    {
        let raised: u8 = self.score.saturating_add(RECOVER_SUCCESS);
        let mut h = self;
        h.score = if raised <= MAX_SCORE {
            raised
        } else {
            MAX_SCORE
        };
        h.last_success = Some(now);
        h.consecutive_failures = 0;
        h.circuit_state = CircuitState::Closed;
        if let Some(l) = ledger {
            let advanced = match self.last_ledger {
                Some(before) => l > before,
                None => true,
            };
            h.last_ledger = Some(l);
            h.last_report = Some(now);
            if advanced {
                h.last_advance = Some(now);
            }
        }
        h
    }

    fn deduct(self, amount: u8, now: u128) -> (r: Self)
        requires
            self.consecutive_failures < u32::MAX,
        ensures
            r == self.deducted(amount, now),
    {
        let mut h = self;
        h.score = self.score.saturating_sub(amount);
        h.consecutive_failures = self.consecutive_failures + 1;
        if h.consecutive_failures >= CIRCUIT_BREAKER_THRESHOLD {
            h.circuit_state = CircuitState::Open;
            h.circuit_opened_at = Some(now);
        }
        h
    }

    fn check_circuit(self, now: u128) -> (r: Self)
        ensures
            r == self.checked(now),
    {
        let mut h = self;
        if self.circuit_state == CircuitState::Open {
            if let Some(opened_at) = self.circuit_opened_at {
                if now.saturating_sub(opened_at) >= CIRCUIT_BREAKER_OPEN_DURATION {
                    h.circuit_state = CircuitState::HalfOpen;
                }
            }
        }
        h
    }

    fn is_better(&self, other: &Self) -> (r: bool)
        ensures
            r == self.better(*other),
    {
        if self.score != other.score {
            self.score > other.score
        } else {
            match (self.last_success, other.last_success) {
                (Some(mine), Some(its)) => mine > its,
                (Some(_), None) => true,
                (None, _) => false,
            }
        }
    }

    fn is_stale_beside(&self, other: &Self, now: u128) -> (r: bool)
        ensures
            r == self.stale_beside(*other, now),
    {
        match (self.last_ledger, self.last_advance, other.last_ledger, other.last_report) {
            (Some(mine), Some(advanced_at), Some(its), Some(told_at)) => {
                its > mine && now.saturating_sub(told_at) < STALE_LEDGER_THRESHOLD
                    && now.saturating_sub(advanced_at) > STALE_LEDGER_THRESHOLD
            },
            _ => false,
        }
    }
}

#[derive(Debug)]
struct ScorerRow {
    url: String,
    health: EndpointHealth,
}

/// The health of all endpoints.
#[derive(Debug)]
pub struct RpcHealthScorer {
    rows: Vec<ScorerRow>,
    /// The endpoints as they were configured, the primary first.
    priority: Vec<String>,
    started: std::time::Instant,
}

/// What a scorer knows: the health of each endpoint, and the order of priority.
pub struct ScorerView {
    pub health: Map<Seq<char>, EndpointHealth>,
    pub priority: Seq<Seq<char>>,
}

spec fn row_of(rows: Seq<ScorerRow>, url: Seq<char>, i: int) -> bool {
    0 <= i < rows.len() && rows[i].url@ == url
}

spec fn has_row(rows: Seq<ScorerRow>, url: Seq<char>) -> bool {
    exists|i: int| row_of(rows, url, i)
}

spec fn rows_view(rows: Seq<ScorerRow>) -> Map<Seq<char>, EndpointHealth> {
    Map::new(
        |url: Seq<char>| has_row(rows, url),
        |url: Seq<char>| rows[choose|i: int| row_of(rows, url, i)].health,
    )
}

spec fn distinct(rows: Seq<ScorerRow>) -> bool {
    forall|i: int, j: int|
        0 <= i < rows.len() && 0 <= j < rows.len() && (#[trigger] rows[i]).url@ == (
        #[trigger] rows[j]).url@ ==> i == j
}

impl View for RpcHealthScorer {
    type V = ScorerView;

    closed spec fn view(&self) -> ScorerView {
        ScorerView { health: rows_view(self.rows@), priority: views(self.priority@) }
    }
}

proof fn lemma_row_view(rows: Seq<ScorerRow>, i: int)
    requires
        distinct(rows),
        0 <= i < rows.len(),
    ensures
        rows_view(rows).dom().contains(rows[i].url@),
        rows_view(rows)[rows[i].url@] == rows[i].health,
{
    assert(row_of(rows, rows[i].url@, i));
    let j = choose|j: int| row_of(rows, rows[i].url@, j);
    assert(row_of(rows, rows[i].url@, j));
}

proof fn lemma_row_update(before: Seq<ScorerRow>, after: Seq<ScorerRow>, i: int)
    requires
        distinct(before),
        0 <= i < before.len(),
        after.len() == before.len(),
        forall|k: int| 0 <= k < before.len() ==> (#[trigger] after[k]).url@ == before[k].url@,
        forall|k: int|
            0 <= k < before.len() && k != i ==> (#[trigger] after[k]).health == before[k].health,
    ensures
        distinct(after),
        rows_view(after) == rows_view(before).insert(before[i].url@, after[i].health),
{
    assert(distinct(after)) by {
        assert forall|a: int, b: int|
            0 <= a < after.len() && 0 <= b < after.len() && (#[trigger] after[a]).url@ == (
            #[trigger] after[b]).url@ implies a == b by {
            assert(before[a].url@ == before[b].url@);
        }
    }
    let target = rows_view(before).insert(before[i].url@, after[i].health);
    assert forall|url: Seq<char>|
        rows_view(after).dom().contains(url) <==> target.dom().contains(url) by {
        if has_row(after, url) {
            let k = choose|k: int| row_of(after, url, k);
            assert(row_of(before, url, k));
        }
        if has_row(before, url) {
            let k = choose|k: int| row_of(before, url, k);
            assert(row_of(after, url, k));
        }
        if url == before[i].url@ {
            assert(row_of(after, url, i));
        }
    }
    assert forall|url: Seq<char>|
        rows_view(after).dom().contains(url) implies rows_view(after)[url] == target[url] by {
        let k = choose|k: int| row_of(after, url, k);
        assert(row_of(after, url, k));
        lemma_row_view(after, k);
        lemma_row_view(before, k);
        if url == before[i].url@ {
            assert(k == i);
        }
    }
    assert(rows_view(after) =~= target);
}

impl ScorerView {
    /// Whether another failure of an endpoint can be counted: there is none after the largest
    /// number.
    pub open spec fn counts_failure(self, url: Seq<char>) -> bool {
        self.health.dom().contains(url) ==> self.health[url].consecutive_failures < u32::MAX
    }

    /// Whether the scorer knows exactly the configured endpoints, of which there is one at least,
    /// no score is above the highest, and each circuit goes with the failures.
    pub open spec fn wf(self) -> bool {
        &&& self.priority.len() > 0
        &&& forall|url: Seq<char>|
            #[trigger] self.health.dom().contains(url) <==> self.priority.contains(url)
        &&& forall|url: Seq<char>|
            #[trigger] self.health.dom().contains(url) ==> self.health[url].score <= MAX_SCORE
                && self.health[url].consistent()
    }

    /// The score of an endpoint; an unknown one has the full score.
    pub open spec fn score(self, url: Seq<char>) -> u8 {
        if self.health.dom().contains(url) {
            self.health[url].score
        } else {
            MAX_SCORE
        }
    }

    /// The same with another health of one endpoint; an unknown endpoint changes nothing.
    pub open spec fn with(self, url: Seq<char>, health: EndpointHealth) -> ScorerView {
        if self.health.dom().contains(url) {
            ScorerView { health: self.health.insert(url, health), ..self }
        } else {
            self
        }
    }

    /// After a success of an endpoint.
    pub open spec fn succeeded(self, url: Seq<char>, ledger: Option<u64>, now: u128) -> ScorerView {
        self.with(url, self.health[url].recovered(ledger, now))
    }

    /// After a failure of an endpoint.
    pub open spec fn deducted(self, url: Seq<char>, amount: u8, now: u128) -> ScorerView {
        self.with(url, self.health[url].deducted(amount, now))
    }

    /// After a look at the circuit of an endpoint.
    pub open spec fn looked_at(self, url: Seq<char>, now: u128) -> ScorerView {
        self.with(url, self.health[url].checked(now))
    }

    /// The state of the circuit of an endpoint; that of an unknown one is closed.
    pub open spec fn circuit(self, url: Seq<char>, now: u128) -> CircuitState {
        if self.health.dom().contains(url) {
            self.health[url].checked(now).circuit_state
        } else {
            CircuitState::Closed
        }
    }

    /// Whether the ledger of an endpoint is stale beside that of any other.
    pub open spec fn is_stale(self, url: Seq<char>, now: u128) -> bool {
        self.health.dom().contains(url) && exists|other: Seq<char>|
            other != url && #[trigger] self.health.dom().contains(other)
                && self.health[url].stale_beside(self.health[other], now)
    }

    /// After a look at every circuit.
    pub open spec fn all_looked_at(self, now: u128) -> ScorerView {
        ScorerView {
            health: Map::new(
                |url: Seq<char>| self.health.dom().contains(url),
                |url: Seq<char>| self.health[url].checked(now),
            ),
            ..self
        }
    }

    /// The best of the first `n` endpoints by priority whose circuit is not open: a later one
    /// takes the place of an earlier one only where it is better.
    pub open spec fn best_among(self, n: int) -> Option<Seq<char>>
        decreases n,
    {
        if n <= 0 {
            None
        } else {
            let url = self.priority[n - 1];
            let so_far = self.best_among(n - 1);
            if self.health[url].circuit_state == CircuitState::Open {
                so_far
            } else {
                match so_far {
                    None => Some(url),
                    Some(best) => if self.health[url].better(self.health[best]) {
                        Some(url)
                    } else {
                        Some(best)
                    },
                }
            }
        }
    }

    /// The endpoint for the next request: the best one, or the primary where every circuit is
    /// open.
    pub open spec fn best(self, now: u128) -> Seq<char> {
        match self.all_looked_at(now).best_among(self.priority.len() as int) {
            Some(url) => url,
            None => self.priority[0],
        }
    }

    /// Whether every endpoint is critically degraded.
    pub open spec fn degraded(self) -> bool {
        forall|url: Seq<char>|
            #[trigger] self.health.dom().contains(url) ==> self.health[url].score
                < ALL_DEGRADED_THRESHOLD
    }
}

/// Scores stay between zero and the highest, whatever happens to an endpoint, and nothing but
/// that endpoint is touched.
pub proof fn scores_stay_in_range(
    s: ScorerView,
    url: Seq<char>,
    other: Seq<char>,
    ledger: Option<u64>,
    amount: u8,
    now: u128,
)
    requires
        s.wf(),
    ensures
        s.succeeded(url, ledger, now).wf(),
        s.counts_failure(url) ==> s.deducted(url, amount, now).wf(),
        s.looked_at(url, now).wf(),
        s.all_looked_at(now).wf(),
        other != url ==> s.succeeded(url, ledger, now).score(other) == s.score(other),
        other != url ==> s.deducted(url, amount, now).score(other) == s.score(other),
        s.looked_at(url, now).score(other) == s.score(other),
        s.all_looked_at(now).score(other) == s.score(other),
{
}

/// A failure never raises a score and a success never lowers one; a success closes the circuit.
pub proof fn scores_move_the_right_way(
    s: ScorerView,
    url: Seq<char>,
    ledger: Option<u64>,
    amount: u8,
    now: u128,
)
    requires
        s.wf(),
    ensures
        s.deducted(url, amount, now).score(url) <= s.score(url),
        s.succeeded(url, ledger, now).score(url) >= s.score(url),
        s.succeeded(url, ledger, now).circuit(url, now) == CircuitState::Closed,
{
}

/// A failure costs its points, counts, and leaves the circuit open from the fifth in a row on and
/// closed before; no other endpoint is touched.
pub proof fn the_fifth_failure_opens_the_circuit(
    s: ScorerView,
    url: Seq<char>,
    other: Seq<char>,
    amount: u8,
    now: u128,
)
    requires
        s.wf(),
        s.health.dom().contains(url),
        s.counts_failure(url),
    ensures
        ({
            let n = s.health[url].consecutive_failures + 1;
            let t = s.deducted(url, amount, now);
            &&& t.score(url) == if s.score(url) >= amount {
                s.score(url) - amount
            } else {
                0
            }
            &&& t.health[url].consecutive_failures == n
            &&& t.circuit(url, now) == if n >= 5 {
                CircuitState::Open
            } else {
                CircuitState::Closed
            }
            &&& other != url ==> t.health[other] == s.health[other] && t.score(other) == s.score(
                other,
            )
        }),
{
}

/// Something that a scorer is told or asked, and when.
pub enum Record {
    Success { url: Seq<char>, ledger: Option<u64>, at: u128 },
    Failure { url: Seq<char>, amount: u8, at: u128 },
    Look { url: Seq<char>, at: u128 },
    Selection { at: u128 },
}

impl Record {
    /// When it happened.
    pub open spec fn time(self) -> u128 {
        match self {
            Record::Success { at, .. } => at,
            Record::Failure { at, .. } => at,
            Record::Look { at, .. } => at,
            Record::Selection { at } => at,
        }
    }

    /// Whether it is a success of the endpoint.
    pub open spec fn succeeds(self, of: Seq<char>) -> bool {
        match self {
            Record::Success { url, .. } => url == of,
            _ => false,
        }
    }

    /// Whether it is a failure of the endpoint.
    pub open spec fn fails(self, of: Seq<char>) -> bool {
        match self {
            Record::Failure { url, .. } => url == of,
            _ => false,
        }
    }
}

impl ScorerView {
    /// After one record.
    pub open spec fn told(self, record: Record) -> ScorerView {
        match record {
            Record::Success { url, ledger, at } => self.succeeded(url, ledger, at),
            Record::Failure { url, amount, at } => self.deducted(url, amount, at),
            Record::Look { url, at } => self.looked_at(url, at),
            Record::Selection { at } => self.all_looked_at(at),
        }
    }

    /// After a history of records, the oldest first.
    pub open spec fn after(self, history: Seq<Record>) -> ScorerView
        decreases history.len(),
    {
        if history.len() == 0 {
            self
        } else {
            self.after(history.drop_last()).told(history.last())
        }
    }
}

/// How many failures of an endpoint a history ends in, successes of it counting as an end.
pub open spec fn failures_in_a_row(history: Seq<Record>, url: Seq<char>) -> nat
    decreases history.len(),
{
    if history.len() == 0 || history.last().succeeds(url) {
        0
    } else if history.last().fails(url) {
        failures_in_a_row(history.drop_last(), url) + 1
    } else {
        failures_in_a_row(history.drop_last(), url)
    }
}

/// When the latest failure of an endpoint happened.
pub open spec fn latest_failure(history: Seq<Record>, url: Seq<char>) -> Option<u128>
    decreases history.len(),
{
    if history.len() == 0 {
        None
    } else if history.last().fails(url) {
        Some(history.last().time())
    } else {
        latest_failure(history.drop_last(), url)
    }
}

/// Whether the records come in the order of their times, none of them later than `now`.
pub open spec fn in_order(history: Seq<Record>, now: u128) -> bool
    decreases history.len(),
{
    history.len() == 0 || (history.last().time() <= now && in_order(
        history.drop_last(),
        history.last().time(),
    ))
}

proof fn lemma_in_order(history: Seq<Record>, url: Seq<char>, now: u128)
    requires
        in_order(history, now),
    ensures
        latest_failure(history, url) is Some ==> latest_failure(history, url)->0 <= now,
    decreases history.len(),
{
    if history.len() > 0 {
        lemma_in_order(history.drop_last(), url, history.last().time());
    }
}

/// Whether every row of failures in a history can be counted, whichever endpoint they are of and
/// wherever the history is cut.
pub open spec fn countable(history: Seq<Record>) -> bool
    decreases history.len(),
{
    history.len() == 0 || (countable(history.drop_last()) && forall|url: Seq<char>| #[trigger]
        failures_in_a_row(history, url) <= u32::MAX)
}

/// What a history makes of the health of an endpoint that was fresh.
spec fn follows(h: EndpointHealth, history: Seq<Record>, url: Seq<char>, now: u128) -> bool {
    let n = failures_in_a_row(history, url);
    &&& h.consecutive_failures == n
    &&& n > 0 ==> latest_failure(history, url) is Some
    &&& n >= CIRCUIT_BREAKER_THRESHOLD ==> {
        &&& h.circuit_opened_at == latest_failure(history, url)
        &&& h.circuit_state == CircuitState::HalfOpen ==> since(now, h.circuit_opened_at->0)
            >= CIRCUIT_BREAKER_OPEN_DURATION
    }
}

proof fn lemma_history(s: ScorerView, history: Seq<Record>, now: u128)
    requires
        s.wf(),
        forall|u: Seq<char>| #[trigger]
            s.health.dom().contains(u) ==> s.health[u] == EndpointHealth::fresh(),
        countable(history),
        in_order(history, now),
    ensures
        s.after(history).wf(),
        s.after(history).health.dom() == s.health.dom(),
        forall|u: Seq<char>| #[trigger]
            s.health.dom().contains(u) ==> follows(s.after(history).health[u], history, u, now),
    decreases history.len(),
{
    if history.len() == 0 {
        assert(s.after(history).health.dom() =~= s.health.dom());
    } else {
        let record = history.last();
        let rest = history.drop_last();
        lemma_history(s, rest, record.time());
        let before = s.after(rest);
        let next = before.told(record);
        assert(next.health.dom() =~= before.health.dom());
        assert(next == s.after(history));
        match record {
            Record::Success { url: of, ledger, at } => {
                scores_stay_in_range(before, of, of, ledger, 0, at);
            },
            Record::Failure { url: of, amount, at } => {
                assert(failures_in_a_row(history, of) <= u32::MAX);
                assert(before.counts_failure(of)) by {
                    if before.health.dom().contains(of) {
                        assert(s.health.dom().contains(of));
                    }
                }
                scores_stay_in_range(before, of, of, None, amount, at);
            },
            Record::Look { url: of, at } => {
                scores_stay_in_range(before, of, of, None, 0, at);
            },
            Record::Selection { at } => {
                scores_stay_in_range(before, s.priority[0], s.priority[0], None, 0, at);
            },
        }
        assert forall|u: Seq<char>| #[trigger] s.health.dom().contains(u) implies follows(
            s.after(history).health[u],
            history,
            u,
            now,
        ) by {
            lemma_in_order(rest, u, record.time());
            assert(before.health.dom().contains(u));
            assert(follows(before.health[u], rest, u, record.time()));
            assert(failures_in_a_row(history, u) <= u32::MAX);
        }
    }
}

/// Whatever an endpoint went through since the scorer was made, its circuit is closed as long as
/// the history ends in fewer than five failures of it. From the fifth on it is open for thirty
/// seconds after the latest failure, and half open from then on. A look changes no score.
pub proof fn circuits_follow_the_failures(
    s: ScorerView,
    history: Seq<Record>,
    url: Seq<char>,
    now: u128,
)
    requires
        s.wf(),
        forall|u: Seq<char>| #[trigger]
            s.health.dom().contains(u) ==> s.health[u] == EndpointHealth::fresh(),
        s.health.dom().contains(url),
        countable(history),
        in_order(history, now),
    ensures
        ({
            let n = failures_in_a_row(history, url);
            let t = s.after(history);
            &&& t.wf()
            &&& t.health[url].consecutive_failures == n
            &&& n < 5 ==> t.circuit(url, now) == CircuitState::Closed
            &&& n >= 5 ==> latest_failure(history, url) is Some && t.circuit(url, now) == if now
                - latest_failure(history, url)->0 < CIRCUIT_BREAKER_OPEN_DURATION {
                CircuitState::Open
            } else {
                CircuitState::HalfOpen
            }
            &&& t.looked_at(url, now).score(url) == t.score(url)
        }),
{
    lemma_history(s, history, now);
    lemma_in_order(history, url, now);
    assert(follows(s.after(history).health[url], history, url, now));
}

/// Whatever happened since the scorer was made, one more failure of an endpoint costs its points
/// and leaves the circuit open where it is the fifth in a row or a later one, and closed before.
/// No other endpoint is touched.
pub proof fn failures_count_after_any_history(
    s: ScorerView,
    history: Seq<Record>,
    url: Seq<char>,
    other: Seq<char>,
    amount: u8,
    now: u128,
)
    requires
        s.wf(),
        forall|u: Seq<char>| #[trigger]
            s.health.dom().contains(u) ==> s.health[u] == EndpointHealth::fresh(),
        s.health.dom().contains(url),
        countable(history),
        in_order(history, now),
        failures_in_a_row(history, url) < u32::MAX,
    ensures
        ({
            let before = s.after(history);
            let t = before.deducted(url, amount, now);
            &&& before.counts_failure(url)
            &&& t.wf()
            &&& t.score(url) == if before.score(url) >= amount {
                before.score(url) - amount
            } else {
                0
            }
            &&& t.circuit(url, now) == if failures_in_a_row(history, url) + 1 >= 5 {
                CircuitState::Open
            } else {
                CircuitState::Closed
            }
            &&& other != url ==> t.score(other) == before.score(other) && t.circuit(other, now)
                == before.circuit(other, now)
        }),
{
    lemma_history(s, history, now);
    let before = s.after(history);
    assert(before.health.dom().contains(url));
    assert(follows(before.health[url], history, url, now));
    the_fifth_failure_opens_the_circuit(before, url, other, amount, now);
    scores_stay_in_range(before, url, other, None, amount, now);
}

/// When an endpoint told a ledger more than thirty seconds ago and another one told a higher ledger
/// less than thirty seconds ago, the first one is stale, however long ago the other one told its
/// ledger for the first time.
pub proof fn quiet_endpoints_turn_stale(
    s: ScorerView,
    url: Seq<char>,
    other: Seq<char>,
    ledger: u64,
    its: u64,
    told: u128,
    its_told: u128,
    now: u128,
)
    requires
        s.wf(),
        s.health.dom().contains(url),
        s.health.dom().contains(other),
        other != url,
        s.health[url].last_advance is Some ==> s.health[url].last_advance->0 <= told,
        its > ledger,
        now - told > STALE_LEDGER_THRESHOLD,
        now - its_told < STALE_LEDGER_THRESHOLD,
    ensures
        s.succeeded(url, Some(ledger), told).succeeded(other, Some(its), its_told).is_stale(
            url,
            now,
        ),
        s.succeeded(other, Some(its), its_told).succeeded(url, Some(ledger), told).is_stale(
            url,
            now,
        ),
{
    let a = s.succeeded(url, Some(ledger), told).succeeded(other, Some(its), its_told);
    let b = s.succeeded(other, Some(its), its_told).succeeded(url, Some(ledger), told);
    assert(a.health.dom().contains(url) && a.health.dom().contains(other));
    assert(b.health.dom().contains(url) && b.health.dom().contains(other));
    assert(a.health[url].stale_beside(a.health[other], now));
    assert(b.health[url].stale_beside(b.health[other], now));
}

proof fn lemma_best_among(s: ScorerView, n: int)
    requires
        s.wf(),
        0 <= n <= s.priority.len(),
    ensures
        match s.best_among(n) {
            Some(best) => {
                &&& s.health.dom().contains(best)
                &&& s.health[best].circuit_state != CircuitState::Open
                &&& forall|k: int|
                    0 <= k < n && s.health[#[trigger] s.priority[k]].circuit_state
                        != CircuitState::Open ==> s.health[s.priority[k]].score
                        <= s.health[best].score && !s.health[s.priority[k]].better(s.health[best])
            },
            None => forall|k: int|
                0 <= k < n ==> s.health[#[trigger] s.priority[k]].circuit_state
                    == CircuitState::Open,
        },
    decreases n,
{
    if n > 0 {
        lemma_best_among(s, n - 1);
        let url = s.priority[n - 1];
        assert(s.priority.contains(url));
        assert(s.health.dom().contains(url));
    }
}

/// The endpoint for the next request is a configured one. Its circuit is not open, and no
/// endpoint whose circuit is not open has a higher score or, with the same score, a later success;
/// only where every circuit is open it is the primary all the same.
pub proof fn selection_takes_the_healthiest(s: ScorerView, now: u128)
    requires
        s.wf(),
    ensures
        s.priority.contains(s.best(now)),
        ({
            let t = s.all_looked_at(now);
            ||| {
                &&& t.health[s.best(now)].circuit_state != CircuitState::Open
                &&& forall|k: int|
                    0 <= k < s.priority.len() && t.health[#[trigger] s.priority[k]].circuit_state
                        != CircuitState::Open ==> t.health[s.priority[k]].score
                        <= t.health[s.best(now)].score && !t.health[s.priority[k]].better(
                        t.health[s.best(now)],
                    )
            }
            ||| {
                &&& s.best(now) == s.priority[0]
                &&& forall|k: int|
                    0 <= k < s.priority.len() ==> t.health[#[trigger] s.priority[k]].circuit_state
                        == CircuitState::Open
            }
        }),
{
    let t = s.all_looked_at(now);
    scores_stay_in_range(s, s.priority[0], s.priority[0], None, 0, now);
    lemma_best_among(t, s.priority.len() as int);
    match t.best_among(s.priority.len() as int) {
        Some(best) => {
            assert(t.health.dom().contains(best));
            assert(s.health.dom().contains(best));
        },
        None => {
            assert(s.priority.contains(s.priority[0]));
        },
    }
}

impl RpcHealthScorer {
    /// What holds of the rows: no endpoint has two.
    pub closed spec fn inv(&self) -> bool {
        distinct(self.rows@)
    }

    /// A scorer of the given endpoints, each with the full score.
    pub fn new(urls: Vec<String>) -> (r: Result<Self, TridentError>)
        ensures
            match r {
                Ok(s) => {
                    &&& urls@.len() > 0
                    &&& s.inv()
                    &&& s@.wf()
                    &&& s@.priority == views(urls@)
                    &&& forall|url: Seq<char>|
                        #[trigger] s@.health.dom().contains(url) ==> s@.health[url]
                            == EndpointHealth::fresh()
                },
                Err(e) => urls@.len() == 0 && e is ConfigError && e.cause().text()
                    == "[indexer] at least one RPC endpoint must be configured for health scoring"@,
            },
    {
        if urls.len() == 0 {
            return Err(
                TridentError::config(
                    ErrorSource::msg(
                        "[indexer] at least one RPC endpoint must be configured for health scoring".to_owned(),
                    ),
                ),
            );
        }
        let mut rows: Vec<ScorerRow> = Vec::new();
        let mut i: usize = 0;
        while i < urls.len()
            invariant
                i <= urls.len(),
                distinct(rows@),
                forall|url: Seq<char>|
                    #[trigger] has_row(rows@, url) <==> views(urls@).take(i as int).contains(url),
                forall|k: int|
                    0 <= k < rows@.len() ==> (#[trigger] rows@[k]).health
                        == EndpointHealth::fresh(),
            decreases urls.len() - i,
        {
            let ghost before = rows@;
            let ghost u = urls@[i as int]@;
            let ghost prefix = views(urls@).take(i as int);
            assert(views(urls@).take(i + 1) =~= prefix.push(u));
            match find_row(&rows, urls[i].as_str()) {
                Some(_) => {},
                None => {
                    rows.push(ScorerRow { url: urls[i].clone(), health: EndpointHealth::new() });
                    assert(!has_row(before, u));
                    assert(distinct(rows@)) by {
                        assert forall|a: int, b: int|
                            0 <= a < rows@.len() && 0 <= b < rows@.len() && (
                            #[trigger] rows@[a]).url@ == (#[trigger] rows@[b]).url@ implies a
                            == b by {
                            if a < before.len() && b == before.len() {
                                assert(row_of(before, u, a));
                            }
                            if b < before.len() && a == before.len() {
                                assert(row_of(before, u, b));
                            }
                        }
                    }
                },
            }
            assert forall|url: Seq<char>|
                #[trigger] has_row(rows@, url) <==> prefix.push(u).contains(url) by {
                if has_row(rows@, url) {
                    let k = choose|k: int| row_of(rows@, url, k);
                    if k < before.len() {
                        assert(row_of(before, url, k));
                        assert(has_row(before, url));
                        let m = choose|m: int| 0 <= m < prefix.len() && prefix[m] == url;
                        assert(prefix.push(u)[m] == url);
                    } else {
                        assert(prefix.push(u)[prefix.len() as int] == url);
                    }
                }
                if prefix.push(u).contains(url) {
                    let m = choose|m: int| 0 <= m < prefix.push(u).len() && prefix.push(u)[m]
                        == url;
                    if m < prefix.len() {
                        assert(prefix[m] == url);
                        assert(prefix.contains(url));
                        assert(has_row(before, url));
                        let k = choose|k: int| row_of(before, url, k);
                        assert(row_of(rows@, url, k));
                    } else if has_row(before, u) {
                        let k = choose|k: int| row_of(before, url, k);
                        assert(row_of(rows@, url, k));
                    } else {
                        assert(row_of(rows@, url, before.len() as int));
                    }
                }
            }
            i = i + 1;
        }
        assert(views(urls@).take(i as int) =~= views(urls@));
        let s = RpcHealthScorer { rows, priority: urls, started: clock_start() };
        assert forall|url: Seq<char>| #[trigger] s@.health.dom().contains(url) implies s@.health[url]
            == EndpointHealth::fresh() by {
            let k = choose|k: int| row_of(rows@, url, k);
            lemma_row_view(rows@, k);
        }
        Ok(s)
    }

    /// The time that has passed since the scorer was made.
    pub(crate) fn now(&self) -> (r: u128)
        ensures
            r <= MAX_DURATION,
    {
        nanos_since(&self.started)
    }

    fn set(&mut self, i: usize, health: EndpointHealth)
        requires
            old(self).inv(),
            i < old(self).rows@.len(),
        ensures
            final(self).inv(),
            final(self)@ == old(self)@.with(old(self).rows@[i as int].url@, health),
            final(self).priority == old(self).priority,
            final(self).rows@.len() == old(self).rows@.len(),
            forall|k: int|
                0 <= k < old(self).rows@.len() ==> (#[trigger] final(self).rows@[k]).url@
                    == old(self).rows@[k].url@,
    {
        let ghost before = self.rows@;
        self.rows[i].health = health;
        proof {
            lemma_row_view(before, i as int);
            lemma_row_update(before, self.rows@, i as int);
        }
    }

    /// Records a success of an endpoint at the given time, with the ledger that it told.
    pub fn record_success_at(&mut self, url: &str, ledger: Option<u64>, now: u128)
        requires
            old(self).inv(),
            old(self)@.wf(),
        ensures
            final(self).inv(),
            final(self)@.wf(),
            final(self)@ == old(self)@.succeeded(url@, ledger, now),
    {
        if let Some(i) = find_row(&self.rows, url) {
            proof {
                lemma_row_view(self.rows@, i as int);
            }
            let health = self.rows[i].health.recover(ledger, now);
            self.set(i, health);
        }
    }

    /// Records a success of an endpoint, with the ledger that it told: five points more, up to the
    /// highest score, and a closed circuit.
    pub fn record_success(&mut self, url: &str, ledger: Option<u64>)
        requires
            old(self).inv(),
            old(self)@.wf(),
        ensures
            final(self).inv(),
            final(self)@.wf(),
            exists|now: u128|
                now <= MAX_DURATION && final(self)@ == #[trigger] old(self)@.succeeded(
                    url@,
                    ledger,
                    now,
                ),
    {
        let now: u128 = self.now();
        self.record_success_at(url, ledger, now);
    }

    /// The state of the circuit of an endpoint at the given time.
    pub fn get_circuit_state_at(&mut self, url: &str, now: u128) -> (r: CircuitState)
        requires
            old(self).inv(),
            old(self)@.wf(),
        ensures
            final(self).inv(),
            final(self)@.wf(),
            final(self)@ == old(self)@.looked_at(url@, now),
            r == old(self)@.circuit(url@, now),
    {
        if let Some(i) = find_row(&self.rows, url) {
            proof {
                lemma_row_view(self.rows@, i as int);
            }
            let health = self.rows[i].health.check_circuit(now);
            self.set(i, health);
            return health.circuit_state;
        }
        CircuitState::Closed
    }

    /// The state of the circuit of an endpoint.
    pub fn get_circuit_state(&mut self, url: &str) -> (r: CircuitState)
        requires
            old(self).inv(),
            old(self)@.wf(),
        ensures
            final(self).inv(),
            final(self)@.wf(),
            exists|now: u128|
                now <= MAX_DURATION && final(self)@ == old(self)@.looked_at(url@, now) && r
                    == #[trigger] old(self)@.circuit(url@, now),
    {
        let now: u128 = self.now();
        self.get_circuit_state_at(url, now)
    }

    /// Whether the circuit of an endpoint lets requests pass: it is not open.
    pub fn is_circuit_allowed(&mut self, url: &str) -> (r: bool)
        requires
            old(self).inv(),
            old(self)@.wf(),
        ensures
            final(self).inv(),
            final(self)@.wf(),
            exists|now: u128|
                now <= MAX_DURATION && final(self)@ == old(self)@.looked_at(url@, now) && r == (
                #[trigger] old(self)@.circuit(url@, now) != CircuitState::Open),
    {
        let now: u128 = self.now();
        self.get_circuit_state_at(url, now) != CircuitState::Open
    }

    /// Records a failure of an endpoint at the given time that costs the given points.
    pub fn deduct_at(&mut self, url: &str, amount: u8, now: u128)
        requires
            old(self).inv(),
            old(self)@.wf(),
            old(self)@.counts_failure(url@),
        ensures
            final(self).inv(),
            final(self)@.wf(),
            final(self)@ == old(self)@.deducted(url@, amount, now),
    {
        if let Some(i) = find_row(&self.rows, url) {
            proof {
                lemma_row_view(self.rows@, i as int);
            }
            let health = self.rows[i].health.deduct(amount, now);
            self.set(i, health);
        }
    }

    /// Records a timeout of an endpoint: twenty points less.
    pub fn record_timeout(&mut self, url: &str)
        requires
            old(self).inv(),
            old(self)@.wf(),
            old(self)@.counts_failure(url@),
        ensures
            final(self).inv(),
            final(self)@.wf(),
            exists|now: u128|
                now <= MAX_DURATION && final(self)@ == #[trigger] old(self)@.deducted(
                    url@,
                    20u8,
                    now,
                ),
    {
        let now: u128 = self.now();
        self.deduct_at(url, DEDUCT_TIMEOUT, now);
    }

    /// Records an answer of an endpoint with an HTTP status other than success: fifteen points
    /// less.
    pub fn record_non_200(&mut self, url: &str)
        requires
            old(self).inv(),
            old(self)@.wf(),
            old(self)@.counts_failure(url@),
        ensures
            final(self).inv(),
            final(self)@.wf(),
            exists|now: u128|
                now <= MAX_DURATION && final(self)@ == #[trigger] old(self)@.deducted(
                    url@,
                    15u8,
                    now,
                ),
    {
        let now: u128 = self.now();
        self.deduct_at(url, DEDUCT_NON_200, now);
    }

    /// Records a JSON-RPC error of an endpoint: ten points less.
    pub fn record_rpc_error(&mut self, url: &str)
        requires
            old(self).inv(),
            old(self)@.wf(),
            old(self)@.counts_failure(url@),
        ensures
            final(self).inv(),
            final(self)@.wf(),
            exists|now: u128|
                now <= MAX_DURATION && final(self)@ == #[trigger] old(self)@.deducted(
                    url@,
                    10u8,
                    now,
                ),
    {
        let now: u128 = self.now();
        self.deduct_at(url, DEDUCT_RPC_ERROR, now);
    }

    /// Records that an endpoint refused a connection: thirty points less.
    pub fn record_connection_refused(&mut self, url: &str)
        requires
            old(self).inv(),
            old(self)@.wf(),
            old(self)@.counts_failure(url@),
        ensures
            final(self).inv(),
            final(self)@.wf(),
            exists|now: u128|
                now <= MAX_DURATION && final(self)@ == #[trigger] old(self)@.deducted(
                    url@,
                    30u8,
                    now,
                ),
    {
        let now: u128 = self.now();
        self.deduct_at(url, DEDUCT_CONNECTION_REFUSED, now);
    }

    /// Whether the ledger of an endpoint is stale at the given time; it costs ten points.
    pub fn check_and_record_stale_at(&mut self, url: &str, now: u128) -> (r: bool)
        requires
            old(self).inv(),
            old(self)@.wf(),
            old(self)@.counts_failure(url@),
        ensures
            final(self).inv(),
            final(self)@.wf(),
            r == old(self)@.is_stale(url@, now),
            final(self)@ == if r {
                old(self)@.deducted(url@, 10u8, now)
            } else {
                old(self)@
            },
    {
        let at: usize = match find_row(&self.rows, url) {
            Some(i) => i,
            None => return false,
        };
        let mine = self.rows[at].health;
        let ghost s = self@;
        proof {
            lemma_row_view(self.rows@, at as int);
        }
        let mut j: usize = 0;
        while j < self.rows.len()
            invariant
                j <= self.rows.len(),
                at < self.rows.len(),
                self.inv(),
                self@ == s,
                old(self)@ == s,
                s.wf(),
                self.rows@[at as int].url@ == url@,
                mine == self.rows@[at as int].health,
                s.health.dom().contains(url@),
                s.health[url@] == mine,
                s.health[url@].consecutive_failures < u32::MAX,
                forall|k: int|
                    0 <= k < j && k != at ==> !mine.stale_beside(
                        (#[trigger] self.rows@[k]).health,
                        now,
                    ),
            decreases self.rows.len() - j,
        {
            if j != at && mine.is_stale_beside(&self.rows[j].health, now) {
                proof {
                    let other = self.rows@[j as int].url@;
                    lemma_row_view(self.rows@, j as int);
                    assert(other != url@);
                    assert(s.health.dom().contains(other));
                }
                self.deduct_at(url, DEDUCT_STALE_LEDGER, now);
                return true;
            }
            j = j + 1;
        }
        assert(!s.is_stale(url@, now)) by {
            if s.is_stale(url@, now) {
                let other = choose|other: Seq<char>|
                    other != url@ && #[trigger] s.health.dom().contains(other)
                        && s.health[url@].stale_beside(s.health[other], now);
                let k = choose|k: int| row_of(self.rows@, other, k);
                assert(row_of(self.rows@, other, k));
                lemma_row_view(self.rows@, k);
                assert(k != at);
            }
        }
        false
    }

    /// Whether the ledger of an endpoint is stale: another endpoint has told a higher ledger in the
    /// last thirty seconds, and its own has not advanced for more than thirty. That costs ten
    /// points.
    pub fn check_and_record_stale(&mut self, url: &str) -> (r: bool)
        requires
            old(self).inv(),
            old(self)@.wf(),
            old(self)@.counts_failure(url@),
        ensures
            final(self).inv(),
            final(self)@.wf(),
            exists|now: u128|
                now <= MAX_DURATION && r == #[trigger] old(self)@.is_stale(url@, now)
                    && final(self)@ == if r {
                    old(self)@.deducted(url@, 10u8, now)
                } else {
                    old(self)@
                },
    {
        let now: u128 = self.now();
        self.check_and_record_stale_at(url, now)
    }

    /// The endpoint for the next request at the given time.
    pub fn select_best_endpoint_at(&mut self, now: u128) -> (r: String)
        requires
            old(self).inv(),
            old(self)@.wf(),
        ensures
            final(self).inv(),
            final(self)@.wf(),
            final(self)@ == old(self)@.all_looked_at(now),
            r@ == old(self)@.best(now),
    {
        let ghost s = self@;
        let ghost t = s.all_looked_at(now);
        proof {
            assert forall|k: int| 0 <= k < self.rows@.len() implies (#[trigger] self.rows@[k]).health
                == s.health[self.rows@[k].url@] by {
                lemma_row_view(self.rows@, k);
            }
        }
        let mut i: usize = 0;
        while i < self.rows.len()
            invariant
                i <= self.rows.len(),
                self.inv(),
                s.wf(),
                self@.wf(),
                self@.priority == s.priority,
                forall|url: Seq<char>|
                    #[trigger] self@.health.dom().contains(url) <==> s.health.dom().contains(url),
                forall|k: int|
                    0 <= k < i ==> (#[trigger] self.rows@[k]).health
                        == s.health[self.rows@[k].url@].checked(now),
                forall|k: int|
                    i <= k < self.rows@.len() ==> (#[trigger] self.rows@[k]).health
                        == s.health[self.rows@[k].url@],
            decreases self.rows.len() - i,
        {
            proof {
                lemma_row_view(self.rows@, i as int);
            }
            let ghost before = self.rows@;
            let health = self.rows[i].health.check_circuit(now);
            self.rows[i].health = health;
            proof {
                lemma_row_update(before, self.rows@, i as int);
                assert(self@.health == rows_view(before).insert(before[i as int].url@, health));
            }
            i = i + 1;
        }
        proof {
            assert forall|url: Seq<char>| self@.health.dom().contains(url) implies self@.health[url]
                == t.health[url] by {
                let k = choose|k: int| row_of(self.rows@, url, k);
                assert(row_of(self.rows@, url, k));
                lemma_row_view(self.rows@, k);
            }
            assert(self@.health =~= t.health);
        }
        let mut best: Option<usize> = None;
        let mut p: usize = 0;
        while p < self.priority.len()
            invariant
                p <= self.priority.len(),
                self.inv(),
                self@ == t,
                t.wf(),
                t.priority == views(self.priority@),
                match best {
                    None => t.best_among(p as int) is None,
                    Some(b) => b < self.rows.len() && t.best_among(p as int) == Some(
                        self.rows@[b as int].url@,
                    ),
                },
            decreases self.priority.len() - p,
        {
            let ghost url = self.priority@[p as int]@;
            proof {
                assert(t.priority[p as int] == url);
                assert(t.priority.contains(url));
                assert(t.health.dom().contains(url));
            }
            if let Some(i) = find_row(&self.rows, self.priority[p].as_str()) {
                proof {
                    lemma_row_view(self.rows@, i as int);
                }
                if self.rows[i].health.circuit_state != CircuitState::Open {
                    let take = match best {
                        None => true,
                        Some(b) => {
                            proof {
                                lemma_row_view(self.rows@, b as int);
                            }
                            self.rows[i].health.is_better(&self.rows[b].health)
                        },
                    };
                    if take {
                        best = Some(i);
                    }
                }
            }
            p = p + 1;
        }
        match best {
            Some(b) => self.rows[b].url.clone(),
            None => self.priority[0].clone(),
        }
    }

    /// The endpoint for the next request: of those whose circuit is not open the one with the
    /// highest score, by the last success and then by priority where scores are equal. Where every
    /// circuit is open it is the primary.
    pub fn select_best_endpoint(&mut self) -> (r: String)
        requires
            old(self).inv(),
            old(self)@.wf(),
        ensures
            final(self).inv(),
            final(self)@.wf(),
            exists|now: u128|
                now <= MAX_DURATION && final(self)@ == old(self)@.all_looked_at(now) && r@
                    == #[trigger] old(self)@.best(now),
    {
        let now: u128 = self.now();
        self.select_best_endpoint_at(now)
    }

    /// Whether another failure of an endpoint can be counted: there is none after the largest
    /// number.
    pub fn counts_failures(&self, url: &str) -> (r: bool)
        requires
            self.inv(),
        ensures
            r == self@.counts_failure(url@),
    {
        match find_row(&self.rows, url) {
            Some(i) => {
                proof {
                    lemma_row_view(self.rows@, i as int);
                }
                self.rows[i].health.consecutive_failures < u32::MAX
            },
            None => true,
        }
    }

    /// The score of an endpoint; an unknown one has the full score.
    pub fn get_score(&self, url: &str) -> (r: u8)
        requires
            self.inv(),
        ensures
            r == self@.score(url@),
    {
        match find_row(&self.rows, url) {
            Some(i) => {
                proof {
                    lemma_row_view(self.rows@, i as int);
                }
                self.rows[i].health.score
            },
            None => MAX_SCORE,
        }
    }

    /// The scores of all endpoints, each endpoint once.
    pub fn get_all_scores(&self) -> (r: Vec<(String, u8)>)
        requires
            self.inv(),
        ensures
            forall|i: int|
                0 <= i < r@.len() ==> self@.health.dom().contains((#[trigger] r@[i]).0@)
                    && r@[i].1 == self@.score(r@[i].0@),
            forall|url: Seq<char>|
                #[trigger] self@.health.dom().contains(url) ==> exists|i: int|
                    0 <= i < r@.len() && (#[trigger] r@[i]).0@ == url,
            forall|i: int, j: int|
                0 <= i < r@.len() && 0 <= j < r@.len() && (#[trigger] r@[i]).0@ == (
                #[trigger] r@[j]).0@ ==> i == j,
    {
        let mut out: Vec<(String, u8)> = Vec::new();
        let mut i: usize = 0;
        while i < self.rows.len()
            invariant
                i <= self.rows.len(),
                self.inv(),
                out@.len() == i,
                forall|k: int|
                    0 <= k < i ==> (#[trigger] out@[k]).0@ == self.rows@[k].url@ && out@[k].1
                        == self.rows@[k].health.score,
            decreases self.rows.len() - i,
        {
            out.push((self.rows[i].url.clone(), self.rows[i].health.score));
            i = i + 1;
        }
        proof {
            assert forall|k: int| 0 <= k < out@.len() implies self@.health.dom().contains(
                (#[trigger] out@[k]).0@,
            ) && out@[k].1 == self@.score(out@[k].0@) by {
                lemma_row_view(self.rows@, k);
            }
            assert forall|url: Seq<char>|
                #[trigger] self@.health.dom().contains(url) implies exists|k: int|
                0 <= k < out@.len() && (#[trigger] out@[k]).0@ == url by {
                let k = choose|k: int| row_of(self.rows@, url, k);
                assert(row_of(self.rows@, url, k));
                assert(out@[k].0@ == url);
            }
            assert forall|a: int, b: int|
                0 <= a < out@.len() && 0 <= b < out@.len() && (#[trigger] out@[a]).0@ == (
                #[trigger] out@[b]).0@ implies a == b by {
                assert(self.rows@[a].url@ == self.rows@[b].url@);
            }
        }
        out
    }

    /// Whether every endpoint is critically degraded: below twenty points.
    pub fn all_degraded(&self) -> (r: bool)
        requires
            self.inv(),
        ensures
            r == self@.degraded(),
    {
        let mut i: usize = 0;
        while i < self.rows.len()
            invariant
                i <= self.rows.len(),
                self.inv(),
                forall|k: int|
                    0 <= k < i ==> (#[trigger] self.rows@[k]).health.score
                        < ALL_DEGRADED_THRESHOLD,
            decreases self.rows.len() - i,
        {
            if self.rows[i].health.score >= ALL_DEGRADED_THRESHOLD {
                proof {
                    lemma_row_view(self.rows@, i as int);
                }
                return false;
            }
            i = i + 1;
        }
        assert forall|url: Seq<char>| #[trigger]
            self@.health.dom().contains(url) implies self@.health[url].score
            < ALL_DEGRADED_THRESHOLD by {
            let k = choose|k: int| row_of(self.rows@, url, k);
            assert(row_of(self.rows@, url, k));
            lemma_row_view(self.rows@, k);
        }
        true
    }
}

fn find_row(rows: &Vec<ScorerRow>, url: &str) -> (r: Option<usize>)
    ensures
        match r {
            Some(i) => row_of(rows@, url@, i as int),
            None => !has_row(rows@, url@),
        },
{
    let mut i: usize = 0;
    while i < rows.len()
        invariant
            i <= rows.len(),
            forall|k: int| 0 <= k < i ==> (#[trigger] rows@[k]).url@ != url@,
        decreases rows.len() - i,
    {
        if same(rows[i].url.as_str(), url) {
            return Some(i);
        }
        i = i + 1;
    }
    assert(!has_row(rows@, url@)) by {
        if has_row(rows@, url@) {
            let k = choose|k: int| row_of(rows@, url@, k);
            assert(rows@[k].url@ == url@);
        }
    }
    None
}

/// A success gives five points back, up to a hundred, clears the failures, closes the circuit and
/// is remembered with its time and with the ledger that it told. The time of an advance moves only
/// with a ledger that is higher than the last.
pub proof fn successes_give_five_points_back(
    h: EndpointHealth,
    ledger: u64,
    before: u64,
    now: u128,
)
    requires
        h.score <= 100,
    ensures
        ({
            let told = h.recovered(Some(ledger), now);
            let silent = h.recovered(None, now);
            &&& h.score <= 95 ==> told.score == h.score + 5 && silent.score == h.score + 5
            &&& h.score > 95 ==> told.score == 100 && silent.score == 100
            &&& told.last_success == Some(now) && silent.last_success == Some(now)
            &&& told.consecutive_failures == 0 && silent.consecutive_failures == 0
            &&& told.circuit_state == CircuitState::Closed && silent.circuit_state
                == CircuitState::Closed
            &&& told.last_ledger == Some(ledger) && silent.last_ledger == h.last_ledger
            &&& told.last_report == Some(now) && silent.last_report == h.last_report
            &&& silent.last_advance == h.last_advance
            &&& h.last_ledger is None ==> told.last_advance == Some(now)
            &&& h.last_ledger == Some(before) && ledger > before ==> told.last_advance == Some(now)
            &&& h.last_ledger == Some(before) && ledger <= before ==> told.last_advance
                == h.last_advance
        }),
{
}

/// A failure takes its points, down to nothing, and counts. The fifth in a row opens the circuit
/// from then on; what the endpoint told before stays.
pub proof fn failures_take_their_points(h: EndpointHealth, amount: u8, now: u128)
    requires
        h.consecutive_failures < u32::MAX,
    ensures
        ({
            let d = h.deducted(amount, now);
            &&& h.score >= amount ==> d.score + amount == h.score
            &&& h.score < amount ==> d.score == 0
            &&& d.consecutive_failures == h.consecutive_failures + 1
            &&& h.consecutive_failures >= 4 ==> d.circuit_state == CircuitState::Open
                && d.circuit_opened_at == Some(now)
            &&& h.consecutive_failures < 4 ==> d.circuit_state == h.circuit_state
                && d.circuit_opened_at == h.circuit_opened_at
            &&& d.last_success == h.last_success
            &&& d.last_ledger == h.last_ledger
            &&& d.last_report == h.last_report
            &&& d.last_advance == h.last_advance
        }),
{
}

/// An open circuit turns half open thirty seconds after it opened and not before; any other stays
/// as it is.
pub proof fn open_circuits_wait_thirty_seconds(h: EndpointHealth, opened: u128, now: u128)
    ensures
        h.circuit_state == CircuitState::Open && h.circuit_opened_at == Some(opened) && now - opened
            >= 30_000_000_000 ==> h.checked(now) == (EndpointHealth {
            circuit_state: CircuitState::HalfOpen,
            ..h
        }),
        h.circuit_state == CircuitState::Open && h.circuit_opened_at == Some(opened) && now - opened
            < 30_000_000_000 ==> h.checked(now) == h,
        h.circuit_state != CircuitState::Open ==> h.checked(now) == h,
{
}

/// The higher score is better, and with the same score the later success; one that never succeeded
/// is better than none of its score.
pub proof fn the_higher_score_is_better(a: EndpointHealth, b: EndpointHealth, ta: u128, tb: u128)
    ensures
        a.score > b.score ==> a.better(b) && !b.better(a),
        a.score == b.score && a.last_success == Some(ta) && b.last_success == Some(tb) ==> (
        a.better(b) <==> ta > tb),
        a.score == b.score && a.last_success == Some(ta) && b.last_success is None ==> a.better(b),
        a.score == b.score && a.last_success is None ==> !a.better(b),
{
}

/// An endpoint is stale only beside one that told a higher ledger within the last thirty seconds,
/// and only where it has not advanced itself for more than that. A new scorer finds none.
pub proof fn stale_endpoints_lag_behind_another(
    a: EndpointHealth,
    b: EndpointHealth,
    la: u64,
    lb: u64,
    advanced: u128,
    reported: u128,
    now: u128,
)
    requires
        a.last_ledger == Some(la),
        a.last_advance == Some(advanced),
        b.last_ledger == Some(lb),
        b.last_report == Some(reported),
        advanced <= now,
        reported <= now,
    ensures
        a.stale_beside(b, now) <==> lb > la && now - reported < 30_000_000_000 && now - advanced
            > 30_000_000_000,
        !EndpointHealth::fresh().stale_beside(b, now),
        !a.stale_beside(EndpointHealth::fresh(), now),
{
}

/// All endpoints are degraded just where none has twenty points; a new endpoint has a hundred.
pub proof fn twenty_points_are_enough(s: ScorerView, url: Seq<char>)
    ensures
        s.health.dom().contains(url) && s.health[url].score >= 20 ==> !s.degraded(),
        s.degraded() && s.health.dom().contains(url) ==> s.score(url) < 20,
        (forall|u: Seq<char>| #[trigger] s.health.dom().contains(u) ==> s.health[u].score < 20)
            ==> s.degraded(),
        EndpointHealth::fresh().score == 100,
        EndpointHealth::fresh().circuit_state == CircuitState::Closed,
        EndpointHealth::fresh().consecutive_failures == 0,
        !s.health.dom().contains(url) ==> s.score(url) == 100,
{
}

/// Of endpoints that are equally good the one with the higher priority is taken.
pub proof fn the_first_of_equals_is_taken(s: ScorerView, i: int, n: int)
    requires
        s.wf(),
        0 <= i < n <= s.priority.len(),
        forall|k: int|
            0 <= k < i ==> s.health[#[trigger] s.priority[k]].circuit_state == CircuitState::Open,
        s.health[s.priority[i]].circuit_state != CircuitState::Open,
        forall|k: int|
            i < k < n ==> !s.health[#[trigger] s.priority[k]].better(s.health[s.priority[i]]),
    ensures
        s.best_among(n) == Some(s.priority[i]),
    decreases n,
{
    if n - 1 > i {
        the_first_of_equals_is_taken(s, i, n - 1);
        assert(!s.health[s.priority[n - 1]].better(s.health[s.priority[i]]));
    } else {
        lemma_best_among(s, i);
        if s.best_among(i) is Some {
            lemma_none_open(s, i);
        }
    }
}

proof fn lemma_none_open(s: ScorerView, n: int)
    requires
        0 <= n <= s.priority.len(),
        forall|k: int|
            0 <= k < n ==> s.health[#[trigger] s.priority[k]].circuit_state == CircuitState::Open,
    ensures
        s.best_among(n) is None,
    decreases n,
{
    if n > 0 {
        assert(s.health[s.priority[n - 1]].circuit_state == CircuitState::Open);
        lemma_none_open(s, n - 1);
    }
}

} // verus!
