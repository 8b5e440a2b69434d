//! How a page is written: in one transaction, in batches of bounded size, the rows before the
//! cursor that claims them.
use vstd::arithmetic::div_mod::lemma_fundamental_div_mod;
use vstd::prelude::*;

use crate::errors::TridentError;
use crate::timestamp::ledger_time;
use crate::timestamp::ledger_time_of;
use crate::timestamp::Timestamp;
use crate::wide::wrap_i32;
use crate::wide::wrap_i64;
use crate::wide::wrapped_i32;
use crate::wide::wrapped_i64;
use crate::wide::wrapped_u64;

verus! {

broadcast use vstd::string::group_string_axioms;

/// Where a page comes from.
#[derive(Debug)]
pub struct LedgerMeta<'a> {
    pub sequence: u64,
    pub hash: &'a str,
    pub timestamp: &'a str,
    pub event_count: i32,
}

/// A row of the ledger metadata table.
#[derive(Debug)]
pub struct LedgerRow {
    pub ledger_sequence: i64,
    pub ledger_hash: String,
    pub ledger_timestamp: Timestamp,
    pub event_count: i32,
}

impl<'a> LedgerMeta<'a> {
    /// The row that tells where a page comes from.
    pub fn row(&self) -> (r: Result<LedgerRow, TridentError>)
        ensures
            match r {
                Ok(row) => ledger_time_of(self.timestamp@) == Ok::<Timestamp, Seq<char>>(
                    row.ledger_timestamp,
                ) && row.ledger_sequence == wrapped_i64(self.sequence) && row.ledger_hash@
                    == self.hash@ && row.event_count == self.event_count,
                Err(e) => e is StorageError && ledger_time_of(self.timestamp@) == Err::<
                    Timestamp,
                    Seq<char>,
                >(e.cause().text()),
            },
    {
        match ledger_time(self.timestamp) {
            Err(e) => Err(e),
            Ok(time) => Ok(
                LedgerRow {
                    ledger_sequence: wrap_i64(self.sequence),
                    ledger_hash: self.hash.to_owned(),
                    ledger_timestamp: time,
                    event_count: self.event_count,
                },
            ),
        }
    }
}

/// What a page holds: how many rows of each kind, how many may go into one statement, and whether
/// it moves the cursor and tells of a ledger.
#[derive(Debug, Clone, Copy, PartialEq, Eq, Structural)]
pub struct PageShape {
    pub events: usize,
    pub token_events: usize,
    pub invocation_metrics: usize,
    pub storage_snapshots: usize,
    pub cursor: Option<u64>,
    pub has_ledger: bool,
    pub batch_size: usize,
}

/// A step of writing a page. The rows of a batch are those from `from` up to, but not with, `to`.
#[derive(Debug, Clone, Copy, PartialEq, Eq, Structural)]
pub enum CommitStep {
    Events { from: usize, to: usize },
    Outbox { from: usize, to: usize },
    TokenEvents { from: usize, to: usize },
    InvocationMetrics { from: usize, to: usize },
    StorageSnapshots { from: usize, to: usize },
    Cursor { value: u64 },
    Ledger,
}

/// The rows that a statement may hold: one at least.
pub open spec fn batch_rows(batch_size: usize) -> nat {
    if batch_size >= 1 {
        batch_size as nat
    } else {
        1
    }
}

/// The number of batches for `n` rows.
pub open spec fn batch_count(n: nat, rows: nat) -> nat {
    (if n == 0 {
        0
    } else {
        (n - 1) / rows as int + 1
    }) as nat
}

/// The batch with index `i` of `n` rows.
pub open spec fn batch(n: nat, rows: nat, i: int) -> (nat, nat) {
    let to = (i + 1) * rows;
    (
        (i * rows) as nat,
        (if to < n {
            to
        } else {
            n as int
        }) as nat,
    )
}

/// Every row is in just one batch, no batch is empty or too large, and one batch goes on where the
/// one before it ends.
pub proof fn batches_partition_the_rows(n: nat, rows: nat, row: int, i: int)
    requires
        rows >= 1,
    ensures
        ({
            let count = batch_count(n, rows);
            let home = row / rows as int;
            &&& 0 <= row < n ==> 0 <= home < count && batch(n, rows, home).0 <= row < batch(
                n,
                rows,
                home,
            ).1
            &&& 0 <= row < n && 0 <= i < count && batch(n, rows, i).0 <= row < batch(
                n,
                rows,
                i,
            ).1 ==> i == home
            &&& 0 <= i < count ==> batch(n, rows, i).0 < batch(n, rows, i).1 <= n && batch(
                n,
                rows,
                i,
            ).1 - batch(n, rows, i).0 <= rows
            &&& 0 <= i < count - 1 ==> batch(n, rows, i + 1).0 == batch(n, rows, i).1
            &&& n > 0 ==> batch(n, rows, 0).0 == 0 && batch(n, rows, count - 1).1 == n
            &&& n == 0 ==> count == 0
        }),
{
    let m = rows as int;
    let count = batch_count(n, rows) as int;
    if n > 0 {
        let q = (n - 1) / m;
        lemma_fundamental_div_mod(n - 1, m);
        assert(q >= 0) by (nonlinear_arith)
            requires
                m >= 1,
                n - 1 >= 0,
                n - 1 == m * q + (n - 1) % m,
                0 <= (n - 1) % m < m,
        ;
        assert(count == q + 1);
        assert(0 * m == 0);
        assert(q * m == m * q) by (nonlinear_arith);
        assert((q + 1) * m == m * q + m) by (nonlinear_arith);
        assert((i + 1) * m == i * m + m) by (nonlinear_arith);
        assert((i + 2) * m == i * m + 2 * m) by (nonlinear_arith);
        if 0 <= i < count {
            assert(0 <= i * m <= q * m) by (nonlinear_arith)
                requires
                    0 <= i <= q,
                    m >= 1,
            ;
        }
        if 0 <= i < count - 1 {
            assert((i + 1) * m <= q * m) by (nonlinear_arith)
                requires
                    i + 1 <= q,
                    m >= 1,
            ;
        }
        if 0 <= row < n {
            let home = row / m;
            lemma_fundamental_div_mod(row, m);
            assert(home * m == m * home) by (nonlinear_arith);
            assert((home + 1) * m == m * home + m) by (nonlinear_arith);
            assert(0 <= home <= q) by (nonlinear_arith)
                requires
                    m >= 1,
                    0 <= row <= n - 1,
                    row == m * home + row % m,
                    0 <= row % m < m,
                    n - 1 == m * q + (n - 1) % m,
                    0 <= (n - 1) % m < m,
            ;
            if 0 <= i < count && batch(n, rows, i).0 <= row < batch(n, rows, i).1 {
                assert(i == home) by (nonlinear_arith)
                    requires
                        m >= 1,
                        i * m <= row < i * m + m,
                        row == m * home + row % m,
                        0 <= row % m < m,
                ;
            }
        }
    }
}

/// The steps for the events: each batch, and right behind it the deliveries for that batch.
pub open spec fn event_steps(n: nat, rows: nat, k: int) -> Seq<CommitStep>
    decreases k,
{
    if k <= 0 {
        Seq::empty()
    } else {
        let (from, to) = batch(n, rows, k - 1);
        event_steps(n, rows, k - 1).push(
            CommitStep::Events { from: from as usize, to: to as usize },
        ).push(CommitStep::Outbox { from: from as usize, to: to as usize })
    }
}

/// The steps for the token events.
pub open spec fn token_steps(n: nat, rows: nat) -> Seq<CommitStep> {
    Seq::new(
        batch_count(n, rows),
        |i: int|
            CommitStep::TokenEvents {
                from: batch(n, rows, i).0 as usize,
                to: batch(n, rows, i).1 as usize,
            },
    )
}

/// The steps for the invocation metrics.
pub open spec fn metric_steps(n: nat, rows: nat) -> Seq<CommitStep> {
    Seq::new(
        batch_count(n, rows),
        |i: int|
            CommitStep::InvocationMetrics {
                from: batch(n, rows, i).0 as usize,
                to: batch(n, rows, i).1 as usize,
            },
    )
}

/// The steps for the storage snapshots.
pub open spec fn snapshot_steps(n: nat, rows: nat) -> Seq<CommitStep> {
    Seq::new(
        batch_count(n, rows),
        |i: int|
            CommitStep::StorageSnapshots {
                from: batch(n, rows, i).0 as usize,
                to: batch(n, rows, i).1 as usize,
            },
    )
}

impl PageShape {
    /// The steps that write the rows of the page.
    pub open spec fn row_steps(self) -> Seq<CommitStep> {
        let rows = batch_rows(self.batch_size);
        event_steps(
            self.events as nat,
            rows,
            batch_count(self.events as nat, rows) as int,
        ) + token_steps(self.token_events as nat, rows) + metric_steps(
            self.invocation_metrics as nat,
            rows,
        ) + snapshot_steps(self.storage_snapshots as nat, rows)
    }

    /// The steps behind the rows: the cursor, then the ledger.
    pub open spec fn last_steps(self) -> Seq<CommitStep> {
        let cursor = match self.cursor {
            Some(value) => seq![CommitStep::Cursor { value }],
            None => Seq::empty(),
        };
        let ledger = if self.has_ledger {
            seq![CommitStep::Ledger]
        } else {
            Seq::empty()
        };
        cursor + ledger
    }

    /// All steps that write the page.
    pub open spec fn steps(self) -> Seq<CommitStep> {
        self.row_steps() + self.last_steps()
    }
}

/// The bounds of the batches of `n` rows.
pub fn batches(n: usize, batch_size: usize) -> (r: Vec<(usize, usize)>)
    ensures
        r@.len() == batch_count(n as nat, batch_rows(batch_size)),
        forall|i: int|
            0 <= i < r@.len() ==> ((#[trigger] r@[i]).0 as nat, r@[i].1 as nat) == batch(
                n as nat,
                batch_rows(batch_size),
                i,
            ),
{
    let rows: usize = if batch_size >= 1 {
        batch_size
    } else {
        1
    };
    let ghost m = rows as int;
    let mut out: Vec<(usize, usize)> = Vec::new();
    if n == 0 {
        return out;
    }
    let mut from: usize = 0;
    assert(0 * m == 0);
    while n - from > rows
        invariant
            0 < n,
            from < n,
            rows >= 1,
            m == rows,
            m == batch_rows(batch_size),
            from == out@.len() * m,
            forall|i: int|
                0 <= i < out@.len() ==> ((#[trigger] out@[i]).0 as nat, out@[i].1 as nat) == batch(
                    n as nat,
                    m as nat,
                    i,
                ),
        decreases n - from,
    {
        let ghost k = out@.len() as int;
        assert((k + 1) * m == k * m + m) by (nonlinear_arith);
        out.push((from, from + rows));
        from = from + rows;
    }
    let ghost k = out@.len() as int;
    assert((k + 1) * m == k * m + m) by (nonlinear_arith);
    proof {
        let q = (n - 1) / m;
        lemma_fundamental_div_mod(n - 1, m);
        assert(q == k) by (nonlinear_arith)
            requires
                m >= 1,
                n - 1 == m * q + (n - 1) % m,
                0 <= (n - 1) % m < m,
                k * m <= n - 1 < k * m + m,
        ;
    }
    out.push((from, n));
    out
}

/// The steps in which a page is written.
pub fn commit_steps(page: PageShape) -> (r: Vec<CommitStep>)
    ensures
        r@ == page.steps(),
{
    let ghost rows = batch_rows(page.batch_size);
    let mut out: Vec<CommitStep> = Vec::new();
    let events = batches(page.events, page.batch_size);
    let ghost e = page.events as nat;
    let mut i: usize = 0;
    while i < events.len()
        invariant
            i <= events.len(),
            rows == batch_rows(page.batch_size),
            e == page.events,
            forall|k: int|
                0 <= k < events@.len() ==> ((#[trigger] events@[k]).0 as nat, events@[k].1 as nat)
                    == batch(e, rows, k),
            out@ == event_steps(e, rows, i as int),
        decreases events.len() - i,
    {
        let (from, to) = events[i];
        assert((from as nat, to as nat) == batch(e, rows, i as int));
        out.push(CommitStep::Events { from, to });
        out.push(CommitStep::Outbox { from, to });
        i = i + 1;
    }
    let ghost first = out@;
    let tokens = batches(page.token_events, page.batch_size);
    let ghost t = token_steps(page.token_events as nat, rows);
    i = 0;
    assert(first + t.take(0) =~= first);
    while i < tokens.len()
        invariant
            i <= tokens.len(),
            t == token_steps(page.token_events as nat, rows),
            tokens@.len() == t.len(),
            forall|k: int|
                0 <= k < tokens@.len() ==> ((#[trigger] tokens@[k]).0 as nat, tokens@[k].1 as nat)
                    == batch(page.token_events as nat, rows, k),
            out@ == first + t.take(i as int),
        decreases tokens.len() - i,
    {
        let (from, to) = tokens[i];
        assert((from as nat, to as nat) == batch(page.token_events as nat, rows, i as int));
        out.push(CommitStep::TokenEvents { from, to });
        assert(t.take(i + 1) =~= t.take(i as int).push(t[i as int]));
        i = i + 1;
    }
    assert(t.take(i as int) =~= t);
    let ghost second = out@;
    let metrics = batches(page.invocation_metrics, page.batch_size);
    let ghost m = metric_steps(page.invocation_metrics as nat, rows);
    i = 0;
    assert(second + m.take(0) =~= second);
    while i < metrics.len()
        invariant
            i <= metrics.len(),
            m == metric_steps(page.invocation_metrics as nat, rows),
            metrics@.len() == m.len(),
            forall|k: int|
                0 <= k < metrics@.len() ==> ((#[trigger] metrics@[k]).0 as nat, metrics@[k].1
                    as nat) == batch(page.invocation_metrics as nat, rows, k),
            out@ == second + m.take(i as int),
        decreases metrics.len() - i,
    {
        let (from, to) = metrics[i];
        assert((from as nat, to as nat) == batch(page.invocation_metrics as nat, rows, i as int));
        out.push(CommitStep::InvocationMetrics { from, to });
        assert(m.take(i + 1) =~= m.take(i as int).push(m[i as int]));
        i = i + 1;
    }
    assert(m.take(i as int) =~= m);
    let ghost third = out@;
    let snapshots = batches(page.storage_snapshots, page.batch_size);
    let ghost s = snapshot_steps(page.storage_snapshots as nat, rows);
    i = 0;
    assert(third + s.take(0) =~= third);
    while i < snapshots.len()
        invariant
            i <= snapshots.len(),
            s == snapshot_steps(page.storage_snapshots as nat, rows),
            snapshots@.len() == s.len(),
            forall|k: int|
                0 <= k < snapshots@.len() ==> ((#[trigger] snapshots@[k]).0 as nat, snapshots@[k].1
                    as nat) == batch(page.storage_snapshots as nat, rows, k),
            out@ == third + s.take(i as int),
        decreases snapshots.len() - i,
    {
        let (from, to) = snapshots[i];
        assert((from as nat, to as nat) == batch(page.storage_snapshots as nat, rows, i as int));
        out.push(CommitStep::StorageSnapshots { from, to });
        assert(s.take(i + 1) =~= s.take(i as int).push(s[i as int]));
        i = i + 1;
    }
    assert(s.take(i as int) =~= s);
    assert(out@ =~= page.row_steps());
    if let Some(value) = page.cursor {
        out.push(CommitStep::Cursor { value });
    }
    if page.has_ledger {
        out.push(CommitStep::Ledger);
    }
    assert(out@ =~= page.steps());
    out
}

proof fn lemma_event_steps(n: nat, rows: nat, k: int, i: int)
    requires
        0 <= i < k,
    ensures
        event_steps(n, rows, k).len() == 2 * k,
        event_steps(n, rows, k)[2 * i] == (CommitStep::Events {
            from: batch(n, rows, i).0 as usize,
            to: batch(n, rows, i).1 as usize,
        }),
        event_steps(n, rows, k)[2 * i + 1] == (CommitStep::Outbox {
            from: batch(n, rows, i).0 as usize,
            to: batch(n, rows, i).1 as usize,
        }),
    decreases k,
{
    lemma_event_steps_len(n, rows, k - 1);
    if i < k - 1 {
        lemma_event_steps(n, rows, k - 1, i);
    }
}

proof fn lemma_event_steps_len(n: nat, rows: nat, k: int)
    requires
        0 <= k,
    ensures
        event_steps(n, rows, k).len() == 2 * k,
    decreases k,
{
    if k > 0 {
        lemma_event_steps_len(n, rows, k - 1);
    }
}

/// Every event of a page is written in one step, its delivery is queued in the step right behind
/// it, and no step but the last ones touches the cursor or the ledger: the cursor never gets ahead
/// of the rows that it claims.
pub proof fn cursor_follows_its_rows(page: PageShape, event: int, step: int)
    ensures
        ({
            let rows = batch_rows(page.batch_size);
            let at = event / rows as int;
            &&& 0 <= event < page.events ==> 0 <= 2 * at + 1 < page.row_steps().len() && (
            match page.steps()[2 * at] {
                CommitStep::Events { from, to } => from <= event < to && page.steps()[2 * at + 1]
                    == (CommitStep::Outbox { from, to }),
                _ => false,
            })
            &&& 0 <= step < page.row_steps().len() ==> !(page.steps()[step] is Cursor) && !(
            page.steps()[step] is Ledger)
            &&& page.row_steps().len() <= step < page.steps().len() ==> page.steps()[step] is Cursor
                || page.steps()[step] is Ledger
            &&& page.cursor is Some ==> page.steps()[page.row_steps().len() as int] == (
            CommitStep::Cursor { value: page.cursor->0 })
        }),
{
    let rows = batch_rows(page.batch_size);
    let n = page.events as nat;
    let count = batch_count(n, rows) as int;
    lemma_event_steps_len(n, rows, count);
    let events = event_steps(n, rows, count);
    if 0 <= event < n {
        let at = event / rows as int;
        batches_partition_the_rows(n, rows, event, at);
        lemma_event_steps(n, rows, count, at);
        assert(page.steps()[2 * at] == events[2 * at]);
        assert(page.steps()[2 * at + 1] == events[2 * at + 1]);
    }
    if 0 <= step < page.row_steps().len() {
        assert(page.steps()[step] == page.row_steps()[step]);
        if step < events.len() {
            lemma_event_steps(n, rows, count, step / 2);
            assert(page.row_steps()[step] == events[step]);
            assert(step == 2 * (step / 2) || step == 2 * (step / 2) + 1);
        }
    }
    if page.row_steps().len() <= step < page.steps().len() {
        assert(page.steps()[step] == page.last_steps()[step - page.row_steps().len()]);
    }
}

/// What is known of a contract as a token.
#[derive(Debug)]
pub enum TokenMetadataResolution {
    Token { name: String, symbol: String, decimals: u32 },
    NotAToken,
}

/// The name, the symbol and the decimals under which a token is stored, and whether it is one.
pub fn metadata_columns(resolution: &TokenMetadataResolution) -> (r: (
    Option<&str>,
    Option<&str>,
    Option<i32>,
    bool,
))
    ensures
        match *resolution {
            TokenMetadataResolution::Token { name, symbol, decimals } => r.0 is Some && r.0->0@
                == name@ && r.1 is Some && r.1->0@ == symbol@ && r.2 is Some && r.2->0
                == wrapped_i32(decimals) && r.3,
            TokenMetadataResolution::NotAToken => r == (
                None::<&str>,
                None::<&str>,
                None::<i32>,
                false,
            ),
        },
{
    match resolution {
        TokenMetadataResolution::Token { name, symbol, decimals } => (
            Some(name.as_str()),
            Some(symbol.as_str()),
            Some(wrap_i32(*decimals)),
            true,
        ),
        TokenMetadataResolution::NotAToken => (None, None, None, false),
    }
}

/// Every row that is no event is written too, by the step for its batch: first the token events,
/// then the metrics, then the snapshots, all behind the events. The ledger comes last of all.
pub proof fn every_row_is_written(page: PageShape, row: int)
    ensures
        ({
            let rows = batch_rows(page.batch_size);
            let at = row / rows as int;
            let events = 2 * batch_count(page.events as nat, rows);
            let tokens = events + batch_count(page.token_events as nat, rows);
            let metrics = tokens + batch_count(page.invocation_metrics as nat, rows);
            &&& 0 <= row < page.token_events ==> match page.steps()[events + at] {
                CommitStep::TokenEvents { from, to } => from <= row < to && to - from <= rows,
                _ => false,
            }
            &&& 0 <= row < page.invocation_metrics ==> match page.steps()[tokens + at] {
                CommitStep::InvocationMetrics { from, to } => from <= row < to && to - from <= rows,
                _ => false,
            }
            &&& 0 <= row < page.storage_snapshots ==> match page.steps()[metrics + at] {
                CommitStep::StorageSnapshots { from, to } => from <= row < to && to - from <= rows,
                _ => false,
            }
            &&& page.has_ledger ==> page.steps().last() == CommitStep::Ledger
            &&& !page.has_ledger && page.cursor is None ==> page.steps() == page.row_steps()
        }),
{
    let rows = batch_rows(page.batch_size);
    let at = row / rows as int;
    let ne = page.events as nat;
    lemma_event_steps_len(ne, rows, batch_count(ne, rows) as int);
    let e = event_steps(ne, rows, batch_count(ne, rows) as int);
    let t = token_steps(page.token_events as nat, rows);
    let m = metric_steps(page.invocation_metrics as nat, rows);
    let s = snapshot_steps(page.storage_snapshots as nat, rows);
    batches_partition_the_rows(page.token_events as nat, rows, row, at);
    batches_partition_the_rows(page.invocation_metrics as nat, rows, row, at);
    batches_partition_the_rows(page.storage_snapshots as nat, rows, row, at);
    if 0 <= row < page.token_events {
        assert(page.steps()[e.len() + at] == t[at]);
    }
    if 0 <= row < page.invocation_metrics {
        assert(page.steps()[e.len() + t.len() + at] == m[at]);
    }
    if 0 <= row < page.storage_snapshots {
        assert(page.steps()[e.len() + t.len() + m.len() + at] == s[at]);
    }
    if !page.has_ledger && page.cursor is None {
        assert(page.steps() =~= page.row_steps());
    }
}

/// A statement holds as many rows as are allowed, and one where none would be.
pub proof fn statements_hold_a_row_at_least(batch_size: usize)
    ensures
        batch_size > 0 ==> batch_rows(batch_size) == batch_size,
        batch_rows(0) == 1,
{
}

/// The row of a ledger has each of its fields in its own place, with the time that its text reads
/// as.
pub proof fn ledgers_are_written_field_by_field(meta: LedgerMeta<'_>, row: LedgerRow)
    requires
        call_ensures(LedgerMeta::row, (&meta,), Ok(row)),
    ensures
        wrapped_u64(row.ledger_sequence) == meta.sequence,
        row.ledger_hash@ == meta.hash@,
        row.event_count == meta.event_count,
        ledger_time_of(meta.timestamp@) == Ok::<Timestamp, Seq<char>>(row.ledger_timestamp),
{
}

/// A token is stored with its name, its symbol and its decimals, in that order; what is none is
/// stored as none.
pub proof fn tokens_are_stored_with_name_and_symbol(
    resolution: TokenMetadataResolution,
    r: (Option<&str>, Option<&str>, Option<i32>, bool),
)
    requires
        call_ensures(metadata_columns, (&resolution,), r),
    ensures
        resolution matches TokenMetadataResolution::Token { name, symbol, decimals } ==> {
            &&& r.0 is Some && r.0->0@ == name@
            &&& r.1 is Some && r.1->0@ == symbol@
            &&& decimals <= 0x7fff_ffff ==> r.2 is Some && r.2->0 == decimals
            &&& r.3
        },
        resolution is NotAToken ==> r.0 is None && r.1 is None && r.2 is None && !r.3,
{
}

/// The batches of some rows are each no larger than allowed, and together hold every row.
pub proof fn batches_hold_every_row(n: usize, batch_size: usize, r: Vec<(usize, usize)>, row: int)
    requires
        call_ensures(batches, (n, batch_size), r),
        0 <= row < n,
    ensures
        exists|i: int| 0 <= i < r@.len() && (#[trigger] r@[i]).0 <= row < r@[i].1,
        forall|i: int|
            0 <= i < r@.len() ==> (#[trigger] r@[i]).1 - r@[i].0 <= if batch_size > 0 {
                batch_size as int
            } else {
                1
            },
{
    let rows = batch_rows(batch_size);
    let home = row / rows as int;
    batches_partition_the_rows(n as nat, rows, row, home);
    assert((r@[home].0 as nat, r@[home].1 as nat) == batch(n as nat, rows, home));
    assert(r@[home].0 <= row < r@[home].1);
    assert forall|i: int| 0 <= i < r@.len() implies (#[trigger] r@[i]).1 - r@[i].0 <= rows by {
        batches_partition_the_rows(n as nat, rows, row, i);
        assert((r@[i].0 as nat, r@[i].1 as nat) == batch(n as nat, rows, i));
    }
}

} // verus!
