//! A list of RPC endpoints by priority, with failover.
//!
//! The first endpoint is the primary. An endpoint that fails often enough in a row is parked for
//! the cooldown, and the next one that is not parked takes over. Before each request the first
//! endpoint by priority that is not parked is taken again. Requests are never spread over several
//! endpoints.
use vstd::arithmetic::div_mod::lemma_mod_add_multiples_vanish;
use vstd::arithmetic::div_mod::lemma_small_mod;
use vstd::prelude::*;

use crate::clock::clock_start;
use crate::clock::nanos_since;
use crate::clock::MAX_DURATION;
use crate::errors::ErrorSource;
use crate::errors::TridentError;

verus! {

broadcast use vstd::string::group_string_axioms;

/// An endpoint and its health.
#[derive(Debug)]
struct Endpoint {
    url: String,
    /// Failures in a row since the last success.
    consecutive_failures: u32,
    /// Until when the endpoint is parked.
    unhealthy_until: Option<u128>,
}

/// What an endpoint is.
pub struct EndpointView {
    pub url: Seq<char>,
    pub failures: u32,
    pub until: Option<u128>,
}

/// A list of endpoints by priority. Times are nanoseconds since the pool was made.
#[derive(Debug)]
pub struct EndpointPool {
    endpoints: Vec<Endpoint>,
    active: usize,
    failover_threshold: u32,
    cooldown: u128,
    started: std::time::Instant,
}

/// What a pool is.
pub struct PoolView {
    pub endpoints: Seq<EndpointView>,
    pub active: int,
    pub threshold: u32,
    pub cooldown: u128,
}

impl View for EndpointPool {
    type V = PoolView;

    closed spec fn view(&self) -> PoolView {
        PoolView {
            endpoints: Seq::new(
                self.endpoints@.len(),
                |i: int|
                    EndpointView {
                        url: self.endpoints@[i].url@,
                        failures: self.endpoints@[i].consecutive_failures,
                        until: self.endpoints@[i].unhealthy_until,
                    },
            ),
            active: self.active as int,
            threshold: self.failover_threshold,
            cooldown: self.cooldown,
        }
    }
}

impl PoolView {
    /// Whether the pool has an endpoint in use, and a threshold that a failure can reach.
    pub open spec fn wf(self) -> bool {
        &&& 0 <= self.active < self.endpoints.len() <= usize::MAX
        &&& self.threshold >= 1
        &&& self.cooldown <= MAX_DURATION
    }

    /// Whether an endpoint is not parked.
    pub open spec fn available(self, i: int, now: u128) -> bool {
        match self.endpoints[i].until {
            None => true,
            Some(until) => now >= until,
        }
    }

    /// The first endpoint from `from` up to but not including `to` that is not parked.
    pub open spec fn first_available(self, from: int, to: int, now: u128) -> Option<int>
        decreases to - from,
    {
        if from >= to {
            None
        } else if self.available(from, now) {
            Some(from)
        } else {
            self.first_available(from + 1, to, now)
        }
    }

    /// The first endpoint that is not parked, from the one in use on and going round.
    pub open spec fn next_available(self, now: u128) -> Option<int> {
        match self.first_available(self.active, self.endpoints.len() as int, now) {
            Some(i) => Some(i),
            None => self.first_available(0, self.active, now),
        }
    }

    /// The first endpoint other than the one in use that is not parked, from the one after it on
    /// and going round.
    pub open spec fn other_available(self, now: u128) -> Option<int> {
        match self.first_available(self.active + 1, self.endpoints.len() as int, now) {
            Some(i) => Some(i),
            None => self.first_available(0, self.active, now),
        }
    }

    /// The pool with one endpoint in use.
    pub open spec fn using(self, i: int) -> PoolView {
        PoolView { active: i, ..self }
    }

    /// The pool with the failures of an endpoint forgotten.
    pub open spec fn cleared(self, i: int) -> PoolView {
        PoolView {
            endpoints: self.endpoints.update(
                i,
                EndpointView { url: self.endpoints[i].url, failures: 0, until: None },
            ),
            ..self
        }
    }

    /// The pool before a request: the first endpoint by priority before the one in use that is
    /// not parked is taken again; else, if the one in use is parked, the next that is not.
    pub open spec fn selected(self, now: u128) -> PoolView {
        match self.first_available(0, self.active, now) {
            Some(best) => self.cleared(best).using(best),
            None => if self.available(self.active, now) {
                self
            } else {
                match self.next_available(now) {
                    Some(next) => self.using(next),
                    None => self,
                }
            },
        }
    }

    /// The pool with one more failure of the endpoint in use, and with that endpoint parked where
    /// its failures have reached the threshold.
    pub open spec fn with_failure(self, now: u128) -> PoolView {
        let e = self.endpoints[self.active];
        let failures = (e.failures + 1) as u32;
        PoolView {
            endpoints: self.endpoints.update(
                self.active,
                EndpointView {
                    url: e.url,
                    failures,
                    until: if failures >= self.threshold {
                        Some((now + self.cooldown) as u128)
                    } else {
                        e.until
                    },
                },
            ),
            ..self
        }
    }

    /// The pool after a failure of the endpoint in use, and whether another one took over.
    pub open spec fn failed(self, now: u128) -> (PoolView, bool) {
        let counted = self.with_failure(now);
        if counted.endpoints[self.active].failures < self.threshold {
            (counted, false)
        } else {
            match counted.other_available(now) {
                Some(next) => (counted.using(next), true),
                None => (counted, false),
            }
        }
    }
}

proof fn lemma_first_available(p: PoolView, from: int, to: int, now: u128)
    requires
        0 <= from,
    ensures
        match p.first_available(from, to, now) {
            Some(i) => from <= i < to && p.available(i, now) && forall|k: int|
                from <= k < i ==> !p.available(k, now),
            None => forall|k: int| from <= k < to ==> !p.available(k, now),
        },
    decreases to - from,
{
    if from < to && !p.available(from, now) {
        lemma_first_available(p, from + 1, to, now);
    }
}

proof fn lemma_next_available(p: PoolView, now: u128)
    requires
        p.wf(),
    ensures
        match p.next_available(now) {
            Some(i) => 0 <= i < p.endpoints.len() && p.available(i, now),
            None => forall|k: int| 0 <= k < p.endpoints.len() ==> !p.available(k, now),
        },
{
    lemma_first_available(p, p.active, p.endpoints.len() as int, now);
    lemma_first_available(p, 0, p.active, now);
}

proof fn lemma_other_available(p: PoolView, now: u128)
    requires
        p.wf(),
    ensures
        match p.other_available(now) {
            Some(i) => 0 <= i < p.endpoints.len() && i != p.active && p.available(i, now),
            None => forall|k: int|
                0 <= k < p.endpoints.len() && k != p.active ==> !p.available(k, now),
        },
{
    lemma_first_available(p, p.active + 1, p.endpoints.len() as int, now);
    lemma_first_available(p, 0, p.active, now);
}

/// Whatever the pool went through, the endpoint in use is not parked as long as any endpoint is
/// not: selection stays with a parked endpoint only where all are.
pub proof fn selection_avoids_parked_endpoints(p: PoolView, now: u128)
    requires
        p.wf(),
    ensures
        p.selected(now).wf(),
        p.selected(now).available(p.selected(now).active, now) || forall|k: int|
            0 <= k < p.endpoints.len() ==> !p.available(k, now),
{
    lemma_first_available(p, 0, p.active, now);
    lemma_next_available(p, now);
}

/// As soon as its cooldown is over the primary is used again.
pub proof fn primary_is_taken_again(p: PoolView, now: u128)
    requires
        p.wf(),
        p.available(0, now),
    ensures
        p.selected(now).active == 0,
{
    if p.active > 0 {
        assert(p.first_available(0, p.active, now) == Some(0int));
    }
}

/// A failure moves to another endpoint only when it is the one that reaches the threshold, and
/// then to one that is not parked.
pub proof fn failover_needs_the_threshold(p: PoolView, now: u128)
    requires
        p.wf(),
        p.endpoints[p.active].failures < u32::MAX,
        now + p.cooldown <= u128::MAX,
    ensures
        p.failed(now).0.wf(),
        p.failed(now).1 <==> p.failed(now).0.active != p.active,
        p.failed(now).1 ==> p.endpoints[p.active].failures + 1 >= p.threshold,
        p.failed(now).1 ==> p.available(p.failed(now).0.active, now),
        !p.failed(now).1 && p.endpoints[p.active].failures + 1 >= p.threshold ==> forall|k: int|
            0 <= k < p.endpoints.len() && k != p.active ==> !p.available(k, now),
{
    let counted = p.with_failure(now);
    lemma_other_available(counted, now);
    if p.failed(now).1 {
        let next = p.failed(now).0.active;
        assert(counted.endpoints[next] == p.endpoints[next]);
    }
    if !p.failed(now).1 && p.endpoints[p.active].failures + 1 >= p.threshold {
        assert forall|k: int| 0 <= k < p.endpoints.len() && k != p.active implies !p.available(
            k,
            now,
        ) by {
            assert(counted.endpoints[k] == p.endpoints[k]);
            assert(!counted.available(k, now));
        }
    }
}

/// The place that lies `d` endpoints behind the one in use, going round.
pub open spec fn behind(p: PoolView, d: int) -> int {
    (p.active + d) % (p.endpoints.len() as int)
}

proof fn lemma_behind(p: PoolView, d: int)
    requires
        p.wf(),
        0 <= d < p.endpoints.len(),
    ensures
        behind(p, d) == if p.active + d < p.endpoints.len() {
            p.active + d
        } else {
            p.active + d - p.endpoints.len()
        },
{
    let n = p.endpoints.len() as int;
    if p.active + d < n {
        lemma_small_mod((p.active + d) as nat, n as nat);
    } else {
        lemma_mod_add_multiples_vanish(p.active + d - n, n);
        lemma_small_mod((p.active + d - n) as nat, n as nat);
    }
}

/// What a failure does, in full. It is counted. From the threshold on it parks its endpoint for the
/// cooldown, and the first endpoint behind it that is not parked takes over, if there is any. No
/// other endpoint is touched.
pub proof fn failures_park_and_move_on(p: PoolView, now: u128)
    requires
        p.wf(),
        p.endpoints[p.active].failures < u32::MAX,
        now + p.cooldown <= u128::MAX,
    ensures
        ({
            let (t, moved) = p.failed(now);
            let n = p.endpoints[p.active].failures + 1;
            let len = p.endpoints.len();
            &&& moved <==> n >= p.threshold && exists|d: int|
                1 <= d < len && #[trigger] p.available(behind(p, d), now)
            &&& moved ==> exists|d: int|
                {
                    &&& 1 <= d < len
                    &&& t.active == #[trigger] behind(p, d)
                    &&& p.available(behind(p, d), now)
                    &&& forall|j: int| 1 <= j < d ==> !#[trigger] p.available(behind(p, j), now)
                }
            &&& !moved ==> t.active == p.active
            &&& t.endpoints[p.active].failures == n
            &&& t.endpoints[p.active].until == if n >= p.threshold {
                Some((now + p.cooldown) as u128)
            } else {
                p.endpoints[p.active].until
            }
            &&& forall|k: int|
                0 <= k < len && k != p.active ==> #[trigger] t.endpoints[k] == p.endpoints[k]
        }),
{
    let (t, moved) = p.failed(now);
    let counted = p.with_failure(now);
    let len = p.endpoints.len() as int;
    assert forall|k: int| 0 <= k < len && k != p.active implies counted.available(k, now)
        == #[trigger] p.available(k, now) by {
        assert(counted.endpoints[k] == p.endpoints[k]);
    }
    lemma_first_available(counted, p.active + 1, len, now);
    lemma_first_available(counted, 0, p.active, now);
    assert forall|d: int| 1 <= d < len implies 0 <= #[trigger] behind(p, d) < len && behind(p, d)
        != p.active by {
        lemma_behind(p, d);
    }
    if moved {
        let d = if t.active > p.active {
            t.active - p.active
        } else {
            t.active + len - p.active
        };
        lemma_behind(p, d);
        assert(p.available(behind(p, d), now));
        assert forall|j: int| 1 <= j < d implies !#[trigger] p.available(behind(p, j), now) by {
            lemma_behind(p, j);
            assert(!counted.available(behind(p, j), now));
        }
    } else if counted.endpoints[p.active].failures >= p.threshold {
        assert forall|d: int| 1 <= d < len implies !#[trigger] p.available(behind(p, d), now) by {
            lemma_behind(p, d);
            assert(!counted.available(behind(p, d), now));
        }
    }
}

/// Something that happens to a pool, and when.
pub enum PoolRecord {
    Success,
    Failure { at: u128 },
    Selection { at: u128 },
}

impl PoolView {
    /// After one record.
    pub open spec fn told(self, record: PoolRecord) -> PoolView {
        match record {
            PoolRecord::Success => self.cleared(self.active),
            PoolRecord::Failure { at } => self.failed(at).0,
            PoolRecord::Selection { at } => self.selected(at),
        }
    }

    /// After a history of records, the oldest first.
    pub open spec fn after(self, history: Seq<PoolRecord>) -> PoolView
        decreases history.len(),
    {
        if history.len() == 0 {
            self
        } else {
            self.after(history.drop_last()).told(history.last())
        }
    }

    /// How many failures an endpoint had in a history since its last success and since it was last
    /// taken again.
    pub open spec fn streak(self, history: Seq<PoolRecord>, i: int) -> nat
        decreases history.len(),
    {
        if history.len() == 0 {
            0
        } else {
            let before = self.after(history.drop_last());
            let so_far = self.streak(history.drop_last(), i);
            match history.last() {
                PoolRecord::Success => if before.active == i {
                    0
                } else {
                    so_far
                },
                PoolRecord::Failure { .. } => if before.active == i {
                    so_far + 1
                } else {
                    so_far
                },
                PoolRecord::Selection { at } => if before.first_available(0, before.active, at)
                    == Some(i) {
                    0
                } else {
                    so_far
                },
            }
        }
    }

    /// Whether every streak of a history can be counted, wherever the history is cut, and every
    /// end of a cooldown can be told.
    pub open spec fn countable(self, history: Seq<PoolRecord>) -> bool
        decreases history.len(),
    {
        history.len() == 0 || {
            &&& self.countable(history.drop_last())
            &&& forall|i: int| #[trigger] self.streak(history, i) <= u32::MAX
            &&& history.last() matches PoolRecord::Failure { at } ==> at + self.cooldown
                <= u128::MAX
        }
    }
}

/// Whatever happened since a pool was made, each endpoint is charged with exactly its failures since
/// its last success and since it was last taken again.
pub proof fn streaks_are_counted(p: PoolView, history: Seq<PoolRecord>, i: int)
    requires
        p.wf(),
        forall|k: int| 0 <= k < p.endpoints.len() ==> (#[trigger] p.endpoints[k]).failures == 0,
        p.countable(history),
        0 <= i < p.endpoints.len(),
    ensures
        p.after(history).wf(),
        p.after(history).endpoints.len() == p.endpoints.len(),
        p.after(history).cooldown == p.cooldown,
        p.after(history).endpoints[i].failures == p.streak(history, i),
    decreases history.len(),
{
    if history.len() > 0 {
        let rest = history.drop_last();
        let before = p.after(rest);
        streaks_are_counted(p, rest, i);
        streaks_are_counted(p, rest, before.active);
        assert(p.streak(history, before.active) <= u32::MAX);
        match history.last() {
            PoolRecord::Success => {},
            PoolRecord::Failure { at } => {
                failures_park_and_move_on(before, at);
                failover_needs_the_threshold(before, at);
            },
            PoolRecord::Selection { at } => {
                selection_avoids_parked_endpoints(before, at);
                lemma_first_available(before, 0, before.active, at);
            },
        }
    }
}

/// A success starts the count of failures anew: with a threshold of two or more, the failure after
/// a success never moves to another endpoint.
pub proof fn success_resets_the_streak(p: PoolView, now: u128)
    requires
        p.wf(),
        p.threshold >= 2,
    ensures
        !p.cleared(p.active).failed(now).1,
        p.cleared(p.active).failed(now).0.active == p.active,
{
}

/// A pool of one endpoint never fails over: that endpoint is in use whatever happens.
pub proof fn a_single_endpoint_is_kept(p: PoolView, now: u128)
    requires
        p.wf(),
        p.endpoints.len() == 1,
    ensures
        p.selected(now).active == 0,
        p.failed(now).0.active == 0,
        !p.failed(now).1,
{
    lemma_next_available(p, now);
    lemma_other_available(p.with_failure(now), now);
}

/// An endpoint in use that is not parked is the first one there is from itself on.
pub proof fn the_endpoint_in_use_comes_first(p: PoolView, now: u128)
    requires
        p.wf(),
        p.available(p.active, now),
    ensures
        p.next_available(now) == Some(p.active),
{
}

/// No operation loses, adds or reorders an endpoint.
pub proof fn endpoints_stay_in_place(p: PoolView, now: u128, i: int)
    requires
        p.wf(),
        0 <= i < p.endpoints.len(),
    ensures
        p.selected(now).endpoints.len() == p.endpoints.len(),
        p.failed(now).0.endpoints.len() == p.endpoints.len(),
        p.cleared(p.active).endpoints.len() == p.endpoints.len(),
        p.selected(now).endpoints[i].url == p.endpoints[i].url,
        p.failed(now).0.endpoints[i].url == p.endpoints[i].url,
        p.cleared(p.active).endpoints[i].url == p.endpoints[i].url,
{
    lemma_first_available(p, 0, p.active, now);
}

impl EndpointPool {
    /// A pool of the given endpoints by priority, with the first one in use.
    pub fn new(urls: Vec<String>, failover_threshold: u32, cooldown: u128) -> (r: Result<
        Self,
        TridentError,
    >)
        requires
            cooldown <= MAX_DURATION,
        ensures
            match r {
                Ok(pool) => {
                    &&& urls@.len() > 0 && failover_threshold > 0
                    &&& pool@.wf()
                    &&& pool@.active == 0
                    &&& pool@.threshold == failover_threshold
                    &&& pool@.cooldown == cooldown
                    &&& pool@.endpoints == Seq::new(
                        urls@.len(),
                        |i: int| EndpointView { url: urls@[i]@, failures: 0, until: None },
                    )
                },
                Err(e) => e is ConfigError && (if urls@.len() == 0 {
                    e.cause().text()
                        == "[indexer] at least one Stellar RPC endpoint must be configured"@
                } else {
                    failover_threshold == 0 && e.cause().text()
                        == "[indexer] RPC failover threshold must be at least 1"@
                }),
            },
    {
        if urls.len() == 0 {
            return Err(
                TridentError::config(
                    ErrorSource::msg(
                        "[indexer] at least one Stellar RPC endpoint must be configured".to_owned(),
                    ),
                ),
            );
        }
        if failover_threshold == 0 {
            return Err(
                TridentError::config(
                    ErrorSource::msg(
                        "[indexer] RPC failover threshold must be at least 1".to_owned(),
                    ),
                ),
            );
        }
        let mut endpoints: Vec<Endpoint> = Vec::new();
        let mut i: usize = 0;
        while i < urls.len()
            invariant
                i <= urls.len(),
                endpoints@.len() == i,
                forall|k: int|
                    0 <= k < i ==> (#[trigger] endpoints@[k]).url@ == urls@[k]@
                        && endpoints@[k].consecutive_failures == 0
                        && endpoints@[k].unhealthy_until is None,
            decreases urls.len() - i,
        {
            endpoints.push(
                Endpoint { url: urls[i].clone(), consecutive_failures: 0, unhealthy_until: None },
            );
            i = i + 1;
        }
        let pool = EndpointPool {
            endpoints,
            active: 0,
            failover_threshold,
            cooldown,
            started: clock_start(),
        };
        assert(pool@.endpoints =~= Seq::new(
            urls@.len(),
            |i: int| EndpointView { url: urls@[i]@, failures: 0, until: None },
        ));
        Ok(pool)
    }

    /// The number of endpoints.
    pub fn len(&self) -> (r: usize)
        ensures
            r == self@.endpoints.len(),
    {
        self.endpoints.len()
    }

    /// The position of the endpoint in use; the primary has position zero.
    pub fn active_index(&self) -> (r: usize)
        ensures
            r == self@.active,
    {
        self.active
    }

    /// The URL of the endpoint in use.
    pub fn active_url(&self) -> (r: &str)
        requires
            self@.wf(),
        ensures
            r@ == self@.endpoints[self@.active].url,
    {
        self.endpoints[self.active].url.as_str()
    }

    fn is_available(&self, i: usize, now: u128) -> (r: bool)
        requires
            i < self@.endpoints.len(),
        ensures
            r == self@.available(i as int, now),
    {
        match self.endpoints[i].unhealthy_until {
            None => true,
            Some(until) => now >= until,
        }
    }

    fn find_available(&self, from: usize, to: usize, now: u128) -> (r: Option<usize>)
        requires
            to <= self@.endpoints.len(),
        ensures
            match r {
                Some(i) => self@.first_available(from as int, to as int, now) == Some(i as int)
                    && from <= i < to,
                None => self@.first_available(from as int, to as int, now) is None,
            },
    {
        let mut i: usize = from;
        while i < to
            invariant
                from <= i,
                to <= self@.endpoints.len(),
                i <= to || i == from,
                self@.first_available(from as int, to as int, now) == self@.first_available(
                    i as int,
                    to as int,
                    now,
                ),
            decreases to - i,
        {
            if self.is_available(i, now) {
                return Some(i);
            }
            i = i + 1;
        }
        None
    }

    fn next_available(&self, now: u128) -> (r: Option<usize>)
        requires
            self@.wf(),
        ensures
            match r {
                Some(i) => self@.next_available(now) == Some(i as int) && i < self@.endpoints.len(),
                None => self@.next_available(now) is None,
            },
    {
        match self.find_available(self.active, self.endpoints.len(), now) {
            Some(i) => Some(i),
            None => self.find_available(0, self.active, now),
        }
    }

    fn other_available(&self, now: u128) -> (r: Option<usize>)
        requires
            self@.wf(),
        ensures
            match r {
                Some(i) => self@.other_available(now) == Some(i as int) && i
                    < self@.endpoints.len(),
                None => self@.other_available(now) is None,
            },
    {
        match self.find_available(self.active + 1, self.endpoints.len(), now) {
            Some(i) => Some(i),
            None => self.find_available(0, self.active, now),
        }
    }

    /// Picks the endpoint for the next request at the given time. Returns its URL and whether
    /// another endpoint than before is in use.
    pub fn select_at(&mut self, now: u128) -> (r: (String, bool))
        requires
            old(self)@.wf(),
        ensures
            final(self)@ == old(self)@.selected(now),
            final(self)@.wf(),
            r.0@ == final(self)@.endpoints[final(self)@.active].url,
            r.1 == (final(self)@.active != old(self)@.active),
    {
        let previous: usize = self.active;
        let ghost p = self@;
        proof {
            lemma_first_available(p, 0, p.active, now);
            lemma_next_available(p, now);
        }
        match self.find_available(0, self.active, now) {
            Some(best) => {
                self.endpoints[best].unhealthy_until = None;
                self.endpoints[best].consecutive_failures = 0;
                self.active = best;
                assert(self@.endpoints =~= p.cleared(best as int).endpoints);
            },
            None => {
                if !self.is_available(self.active, now) {
                    if let Some(next) = self.next_available(now) {
                        self.active = next;
                        assert(self@.endpoints =~= p.endpoints);
                    }
                }
            },
        }
        (self.active_url().to_owned(), self.active != previous)
    }

    /// Picks the endpoint for the next request now.
    pub fn select(&mut self) -> (r: (String, bool))
        requires
            old(self)@.wf(),
        ensures
            exists|now: u128|
                now <= MAX_DURATION && final(self)@ == #[trigger] old(self)@.selected(now),
            final(self)@.wf(),
            r.0@ == final(self)@.endpoints[final(self)@.active].url,
            r.1 == (final(self)@.active != old(self)@.active),
    {
        let now: u128 = nanos_since(&self.started);
        self.select_at(now)
    }

    /// Forgets the failures of the endpoint in use, after a success.
    pub fn record_success(&mut self)
        requires
            old(self)@.wf(),
        ensures
            final(self)@ == old(self)@.cleared(old(self)@.active),
            final(self)@.wf(),
    {
        let ghost p = self@;
        let active: usize = self.active;
        self.endpoints[active].consecutive_failures = 0;
        self.endpoints[active].unhealthy_until = None;
        assert(self@.endpoints =~= p.cleared(p.active).endpoints);
    }

    /// Counts a failure of the endpoint in use at the given time. Returns whether another endpoint
    /// took over.
    pub fn record_failure_at(&mut self, now: u128) -> (r: bool)
        requires
            old(self)@.wf(),
            old(self)@.endpoints[old(self)@.active].failures < u32::MAX,
            now <= MAX_DURATION,
        ensures
            final(self)@ == old(self)@.failed(now).0,
            r == old(self)@.failed(now).1,
            final(self)@.wf(),
    {
        let ghost p = self@;
        let active: usize = self.active;
        let failures: u32 = self.endpoints[active].consecutive_failures + 1;
        self.endpoints[active].consecutive_failures = failures;
        if failures < self.failover_threshold {
            assert(self@.endpoints =~= p.with_failure(now).endpoints);
            return false;
        }
        let until: u128 = now + self.cooldown;
        self.endpoints[active].unhealthy_until = Some(until);
        assert(self@.endpoints =~= p.with_failure(now).endpoints);
        assert(self@ == p.with_failure(now));
        match self.other_available(now) {
            Some(next) => {
                self.active = next;
                assert(self@.endpoints =~= p.with_failure(now).endpoints);
                true
            },
            None => false,
        }
    }

    /// Counts a failure of the endpoint in use now.
    pub fn record_failure(&mut self) -> (r: bool)
        requires
            old(self)@.wf(),
            old(self)@.endpoints[old(self)@.active].failures < u32::MAX,
        ensures
            exists|now: u128|
                now <= MAX_DURATION && final(self)@ == (#[trigger] old(self)@.failed(now)).0 && r
                    == old(self)@.failed(now).1,
            final(self)@.wf(),
    {
        let now: u128 = nanos_since(&self.started);
        self.record_failure_at(now)
    }
}

/// An endpoint is parked until its time, and not at that time any more.
pub proof fn parked_endpoints_come_back_in_time(p: PoolView, i: int, until: u128, now: u128)
    ensures
        p.endpoints[i].until is None ==> p.available(i, now),
        p.endpoints[i].until == Some(until) ==> (p.available(i, now) <==> until <= now),
{
}

/// Before a request the endpoint of the highest priority that is not parked and stands before the
/// one in use takes over with its failures forgotten. Else the one in use stays while it is not
/// parked; the others keep what they have.
pub proof fn higher_priorities_take_over(p: PoolView, now: u128, best: int, other: int)
    requires
        p.wf(),
        0 <= best < p.active,
        p.available(best, now),
        forall|k: int| 0 <= k < best ==> !p.available(k, now),
        0 <= other < p.endpoints.len(),
        other != best,
    ensures
        p.selected(now).active == best,
        p.selected(now).endpoints[best].failures == 0,
        p.selected(now).endpoints[best].until is None,
        p.selected(now).endpoints[other] == p.endpoints[other],
        p.selected(now).threshold == p.threshold,
        p.selected(now).cooldown == p.cooldown,
{
    lemma_first_available(p, 0, p.active, now);
    let found = p.first_available(0, p.active, now);
    assert(found is Some);
    if found->0 < best {
        assert(p.available(found->0, now));
    }
    if best < found->0 {
        assert(!p.available(best, now));
    }
}

/// Where no endpoint of a higher priority is free, the one in use stays as long as it is not
/// parked, and nothing changes.
pub proof fn the_endpoint_in_use_stays(p: PoolView, now: u128)
    requires
        p.wf(),
        forall|k: int| 0 <= k < p.active ==> !p.available(k, now),
        p.available(p.active, now),
    ensures
        p.selected(now) == p,
{
    lemma_first_available(p, 0, p.active, now);
}

/// A success forgets the failures of its endpoint and whether it was parked, and leaves the others
/// alone.
pub proof fn successes_clear_their_endpoint(p: PoolView, i: int, other: int)
    requires
        0 <= i < p.endpoints.len(),
        0 <= other < p.endpoints.len(),
        other != i,
    ensures
        p.cleared(i).endpoints[i].failures == 0,
        p.cleared(i).endpoints[i].until is None,
        p.cleared(i).endpoints[i].url == p.endpoints[i].url,
        p.cleared(i).endpoints[other] == p.endpoints[other],
        p.cleared(i).active == p.active,
        p.using(i).active == i,
        p.using(i).endpoints == p.endpoints,
{
}

} // verus!
