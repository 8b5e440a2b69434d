//! What the tables hold after rows are written to them.
//!
//! Every table of a page is written in the same way: a row whose key clashes with that of a row
//! that is there already is not written. Most tables have one key, and two rows clash where it is
//! the same; the events have two, and either is enough. All steps of a page share one transaction.
use vstd::prelude::*;

use crate::indexer::db::columns::EventRow;
use crate::indexer::db::columns::MetricRow;
use crate::indexer::db::columns::SnapshotRow;
use crate::indexer::db::columns::TokenColumns;
use crate::indexer::db::columns::TokenRow;
use crate::indexer::db::commit::batch;
use crate::indexer::db::commit::batch_count;
use crate::indexer::db::commit::batch_rows;
use crate::indexer::db::commit::batches_partition_the_rows;
use crate::indexer::db::commit::event_steps;
use crate::indexer::db::commit::metric_steps;
use crate::indexer::db::commit::snapshot_steps;
use crate::indexer::db::commit::token_steps;
use crate::indexer::db::commit::CommitStep;
use crate::indexer::db::commit::PageShape;
use crate::timestamp::Timestamp;
use crate::wide::wrapped_i64;

verus! {

/// Whether a table has a row whose key clashes with the given one.
pub open spec fn taken<K, R>(
    table: Map<K, R>,
    key: K,
    clash: spec_fn(K, K) -> bool,
) -> bool {
    exists|k: K| #[trigger] table.dom().contains(k) && clash(k, key)
}

/// A table after rows are written to it, each with its key: a row whose key clashes with one that is
/// there stays out.
pub open spec fn inserted<K, R>(
    table: Map<K, R>,
    rows: Seq<(K, R)>,
    clash: spec_fn(K, K) -> bool,
) -> Map<K, R>
    decreases rows.len(),
{
    if rows.len() == 0 {
        table
    } else {
        let before = inserted(table, rows.drop_last(), clash);
        if taken(before, rows.last().0, clash) {
            before
        } else {
            before.insert(rows.last().0, rows.last().1)
        }
    }
}

/// The clash of keys in a table that has one key.
pub open spec fn same_key<K>() -> spec_fn(K, K) -> bool {
    |a: K, b: K| a == b
}

/// Whether every key clashes with itself.
pub open spec fn reflexive<K>(clash: spec_fn(K, K) -> bool) -> bool {
    forall|a: K| #[trigger] clash(a, a)
}

/// Whether keys clash both ways.
pub open spec fn symmetric<K>(clash: spec_fn(K, K) -> bool) -> bool {
    forall|a: K, b: K| #[trigger] clash(a, b) == clash(b, a)
}

/// Whether no two rows of a table clash.
pub open spec fn apart<K, R>(table: Map<K, R>, clash: spec_fn(K, K) -> bool) -> bool {
    forall|a: K, b: K| #[trigger]
        table.dom().contains(a) && #[trigger] table.dom().contains(b) && clash(a, b) ==> a == b
}

/// Whether one of some rows has a key.
pub open spec fn has_key<K, R>(rows: Seq<(K, R)>, key: K) -> bool {
    exists|i: int| 0 <= i < rows.len() && (#[trigger] rows[i]).0 == key
}

/// A write leaves every row that was there as it is, and each new row is one of those that were
/// written.
pub proof fn writes_only_add<K, R>(
    table: Map<K, R>,
    rows: Seq<(K, R)>,
    clash: spec_fn(K, K) -> bool,
    key: K,
)
    requires
        reflexive(clash),
    ensures
        table.dom().contains(key) ==> inserted(table, rows, clash).dom().contains(key) && inserted(
            table,
            rows,
            clash,
        )[key] == table[key],
        inserted(table, rows, clash).dom().contains(key) && !table.dom().contains(key)
            ==> rows.contains((key, inserted(table, rows, clash)[key])),
    decreases rows.len(),
{
    if rows.len() > 0 {
        let rest = rows.drop_last();
        writes_only_add(table, rest, clash, key);
        let before = inserted(table, rest, clash);
        let after = inserted(table, rows, clash);
        let last = rows.last();
        assert(clash(last.0, last.0));
        assert(before.dom().contains(last.0) ==> taken(before, last.0, clash));
        if after.dom().contains(key) && !table.dom().contains(key) {
            if before.dom().contains(key) {
                let i = choose|i: int| 0 <= i < rest.len() && rest[i] == (key, before[key]);
                assert(rest.contains((key, before[key])));
                assert(rows[i] == (key, after[key]));
            } else {
                assert(rows[rows.len() - 1] == (key, after[key]));
            }
        }
    }
}

/// After a write each of the rows is there, or one that clashes with it.
pub proof fn every_row_finds_its_place<K, R>(
    table: Map<K, R>,
    rows: Seq<(K, R)>,
    clash: spec_fn(K, K) -> bool,
    i: int,
)
    requires
        reflexive(clash),
        0 <= i < rows.len(),
    ensures
        taken(inserted(table, rows, clash), rows[i].0, clash),
    decreases rows.len(),
{
    let rest = rows.drop_last();
    let before = inserted(table, rest, clash);
    let after = inserted(table, rows, clash);
    if i < rest.len() {
        every_row_finds_its_place(table, rest, clash, i);
        assert(rest[i] == rows[i]);
        let k = choose|k: K| #[trigger] before.dom().contains(k) && clash(k, rows[i].0);
        assert(after.dom().contains(k));
    } else if !taken(before, rows[i].0, clash) {
        assert(clash(rows[i].0, rows[i].0));
        assert(after.dom().contains(rows[i].0));
    }
}

/// Where no two rows of a table clash, none do after a write.
pub proof fn writes_keep_keys_apart<K, R>(
    table: Map<K, R>,
    rows: Seq<(K, R)>,
    clash: spec_fn(K, K) -> bool,
)
    requires
        symmetric(clash),
        apart(table, clash),
    ensures
        apart(inserted(table, rows, clash), clash),
    decreases rows.len(),
{
    if rows.len() > 0 {
        writes_keep_keys_apart(table, rows.drop_last(), clash);
        let before = inserted(table, rows.drop_last(), clash);
        let after = inserted(table, rows, clash);
        let key = rows.last().0;
        assert forall|a: K, b: K| #[trigger]
            after.dom().contains(a) && #[trigger] after.dom().contains(b) && clash(
                a,
                b,
            ) implies a == b by {
            assert(clash(a, b) == clash(b, a));
            if a != b && !taken(before, key, clash) {
                if a == key {
                    assert(before.dom().contains(b));
                    assert(clash(b, key));
                } else if b == key {
                    assert(before.dom().contains(a));
                    assert(clash(a, key));
                } else {
                    assert(before.dom().contains(a) && before.dom().contains(b));
                }
            }
        }
    }
}

/// Where a table has one key, it has after a write exactly the keys that it had and those of the
/// rows.
pub proof fn writes_with_one_key<K, R>(table: Map<K, R>, rows: Seq<(K, R)>, key: K)
    ensures
        inserted(table, rows, same_key()).dom().contains(key) <==> table.dom().contains(key)
            || has_key(rows, key),
{
    let after = inserted(table, rows, same_key());
    writes_only_add(table, rows, same_key(), key);
    if after.dom().contains(key) && !table.dom().contains(key) {
        let i = choose|i: int| 0 <= i < rows.len() && rows[i] == (key, after[key]);
        assert(rows.contains((key, after[key])));
        assert(rows[i].0 == key);
    }
    if has_key(rows, key) {
        let i = choose|i: int| 0 <= i < rows.len() && (#[trigger] rows[i]).0 == key;
        every_row_finds_its_place(table, rows, same_key(), i);
    }
}

proof fn lemma_all_taken<K, R>(
    table: Map<K, R>,
    rows: Seq<(K, R)>,
    clash: spec_fn(K, K) -> bool,
)
    requires
        forall|i: int| 0 <= i < rows.len() ==> taken(table, (#[trigger] rows[i]).0, clash),
    ensures
        inserted(table, rows, clash) == table,
    decreases rows.len(),
{
    if rows.len() > 0 {
        assert forall|i: int| 0 <= i < rows.drop_last().len() implies taken(
            table,
            (#[trigger] rows.drop_last()[i]).0,
            clash,
        ) by {
            assert(rows.drop_last()[i] == rows[i]);
        }
        lemma_all_taken(table, rows.drop_last(), clash);
        assert(rows[rows.len() - 1] == rows.last());
    }
}

/// Rows that are written twice leave the table as one write does.
pub proof fn second_writes_change_nothing<K, R>(
    table: Map<K, R>,
    rows: Seq<(K, R)>,
    clash: spec_fn(K, K) -> bool,
)
    requires
        reflexive(clash),
    ensures
        inserted(inserted(table, rows, clash), rows, clash) == inserted(table, rows, clash),
{
    let once = inserted(table, rows, clash);
    assert forall|i: int| 0 <= i < rows.len() implies taken(
        once,
        (#[trigger] rows[i]).0,
        clash,
    ) by {
        every_row_finds_its_place(table, rows, clash, i);
    }
    lemma_all_taken(once, rows, clash);
}

/// Rows may be written in parts.
pub proof fn writes_go_in_parts<K, R>(
    table: Map<K, R>,
    a: Seq<(K, R)>,
    b: Seq<(K, R)>,
    clash: spec_fn(K, K) -> bool,
)
    ensures
        inserted(inserted(table, a, clash), b, clash) == inserted(table, a + b, clash),
    decreases b.len(),
{
    if b.len() == 0 {
        assert(a + b =~= a);
    } else {
        writes_go_in_parts(table, a, b.drop_last(), clash);
        assert((a + b).drop_last() =~= a + b.drop_last());
    }
}

// ---------------------------------------------------------------------------------------------
// Events.
// ---------------------------------------------------------------------------------------------
/// What events are told apart by. The id is unique within its ledger, and so is the place of the
/// event in its transaction on its network.
pub struct EventKey {
    pub ledger_sequence: i64,
    pub id: Seq<u8>,
    pub transaction_hash: Seq<char>,
    pub event_index: i32,
    pub network: Seq<char>,
}

impl EventKey {
    /// Whether two events cannot both be stored.
    pub open spec fn clashes(self, other: EventKey) -> bool {
        &&& self.ledger_sequence == other.ledger_sequence
        &&& self.id == other.id || (self.transaction_hash == other.transaction_hash
            && self.event_index == other.event_index && self.network == other.network)
    }
}

/// The clash of keys in the table of events.
pub open spec fn event_clash() -> spec_fn(EventKey, EventKey) -> bool {
    |a: EventKey, b: EventKey| a.clashes(b)
}

impl EventRow {
    /// The key of the row on a network.
    pub open spec fn key(self, network: Seq<char>) -> EventKey {
        EventKey {
            ledger_sequence: self.ledger_sequence,
            id: self.id,
            transaction_hash: self.transaction_hash,
            event_index: self.event_index,
            network,
        }
    }
}

/// The rows of the events table for some events on a network, each with its key.
pub open spec fn event_entries(events: Seq<EventRow>, network: Seq<char>) -> Seq<
    (EventKey, EventRow),
> {
    Seq::new(events.len(), |i: int| (events[i].key(network), events[i]))
}

/// A batch of events leaves the events that were there as they are and adds none but its own. Each
/// of its events is there afterwards, or one with the same id, or with the same place in its
/// transaction, in the same ledger. No two events come to share either, and the batch written again
/// changes nothing.
pub proof fn events_are_stored_once(
    table: Map<EventKey, EventRow>,
    events: Seq<EventRow>,
    network: Seq<char>,
    key: EventKey,
    i: int,
)
    ensures
        ({
            let rows = event_entries(events, network);
            let after = inserted(table, rows, event_clash());
            &&& table.dom().contains(key) ==> after.dom().contains(key) && after[key] == table[key]
            &&& after.dom().contains(key) && !table.dom().contains(key) ==> events.contains(
                after[key],
            ) && key == after[key].key(network)
            &&& 0 <= i < events.len() ==> taken(after, events[i].key(network), event_clash())
            &&& apart(table, event_clash()) ==> apart(after, event_clash())
            &&& inserted(after, rows, event_clash()) == after
            &&& events.len() == 0 ==> after == table
        }),
{
    let rows = event_entries(events, network);
    let after = inserted(table, rows, event_clash());
    writes_only_add(table, rows, event_clash(), key);
    if after.dom().contains(key) && !table.dom().contains(key) {
        let j = choose|j: int| 0 <= j < rows.len() && rows[j] == (key, after[key]);
        assert(rows.contains((key, after[key])));
        assert(events[j] == after[key]);
    }
    if 0 <= i < events.len() {
        every_row_finds_its_place(table, rows, event_clash(), i);
    }
    if apart(table, event_clash()) {
        writes_keep_keys_apart(table, rows, event_clash());
    }
    second_writes_change_nothing(table, rows, event_clash());
}

// ---------------------------------------------------------------------------------------------
// Token events.
// ---------------------------------------------------------------------------------------------
/// The rows of the token events table that the columns of a batch of `n` make up, each under the id
/// of its event.
pub open spec fn token_entries(columns: TokenColumns, n: nat) -> Seq<(Seq<u8>, TokenRow)> {
    Seq::new(n, |i: int| (columns.row(i).event_id, columns.row(i)))
}

/// A batch of token events adds a row for each id that is not there, with the fields of a token
/// event of that id, and leaves the other rows as they are. Written again it changes nothing, and an
/// empty batch changes nothing at all.
pub proof fn token_events_are_stored_once(
    table: Map<Seq<u8>, TokenRow>,
    columns: TokenColumns,
    n: nat,
    id: Seq<u8>,
)
    ensures
        ({
            let rows = token_entries(columns, n);
            let after = inserted(table, rows, same_key());
            &&& table.dom().contains(id) ==> after.dom().contains(id) && after[id] == table[id]
            &&& !table.dom().contains(id) ==> (after.dom().contains(id) <==> exists|i: int|
                0 <= i < n && (#[trigger] columns.row(i)).event_id == id)
            &&& !table.dom().contains(id) && after.dom().contains(id) ==> exists|i: int|
                0 <= i < n && #[trigger] columns.row(i) == after[id] && after[id].event_id == id
            &&& inserted(after, rows, same_key()) == after
            &&& n == 0 ==> after == table
        }),
{
    let rows = token_entries(columns, n);
    let after = inserted(table, rows, same_key());
    writes_only_add(table, rows, same_key(), id);
    writes_with_one_key(table, rows, id);
    second_writes_change_nothing(table, rows, same_key());
    if exists|i: int| 0 <= i < n && (#[trigger] columns.row(i)).event_id == id {
        let i = choose|i: int| 0 <= i < n && (#[trigger] columns.row(i)).event_id == id;
        assert(rows[i].0 == id);
    }
    if !table.dom().contains(id) && after.dom().contains(id) {
        let i = choose|i: int| 0 <= i < rows.len() && rows[i] == (id, after[id]);
        assert(rows.contains((id, after[id])));
        assert(columns.row(i) == after[id]);
    }
}

// ---------------------------------------------------------------------------------------------
// A page.
// ---------------------------------------------------------------------------------------------
/// What the tables hold. The cursor is nothing where what is stored is no number.
pub struct Store {
    pub events: Map<EventKey, EventRow>,
    pub outbox: Map<Seq<u8>, EventRow>,
    pub token_events: Map<Seq<u8>, TokenRow>,
    pub metrics: Map<(Seq<char>, Seq<char>), MetricRow>,
    pub snapshots: Map<(Seq<char>, Seq<char>, Seq<char>, i64), SnapshotRow>,
    pub ledgers: Map<i64, LedgerView>,
    pub cursor: Option<nat>,
}

/// A row of the ledger metadata table.
pub struct LedgerView {
    pub hash: Seq<char>,
    pub timestamp: Timestamp,
    pub event_count: i32,
}

/// The rows of a page, and the network on which its events are stored.
pub struct PageRows {
    pub network: Seq<char>,
    pub events: Seq<EventRow>,
    pub token_events: Seq<TokenRow>,
    pub metrics: Seq<MetricRow>,
    pub snapshots: Seq<SnapshotRow>,
    pub ledger: Seq<(i64, LedgerView)>,
}

impl PageRows {
    /// The events with their keys.
    pub open spec fn event_rows(self) -> Seq<(EventKey, EventRow)> {
        event_entries(self.events, self.network)
    }

    /// The deliveries, one for each event, under its id.
    pub open spec fn outbox_rows(self) -> Seq<(Seq<u8>, EventRow)> {
        Seq::new(self.events.len(), |i: int| (self.events[i].id, self.events[i]))
    }

    /// The token events under the ids of their events.
    pub open spec fn token_rows(self) -> Seq<(Seq<u8>, TokenRow)> {
        Seq::new(self.token_events.len(), |i: int|
            (self.token_events[i].event_id, self.token_events[i]))
    }

    /// The metrics, each under its contract and transaction.
    pub open spec fn metric_rows(self) -> Seq<((Seq<char>, Seq<char>), MetricRow)> {
        Seq::new(self.metrics.len(), |i: int|
            ((self.metrics[i].contract_id, self.metrics[i].transaction_hash), self.metrics[i]))
    }

    /// The snapshots, each under its contract, network, key and ledger.
    pub open spec fn snapshot_rows(self) -> Seq<
        ((Seq<char>, Seq<char>, Seq<char>, i64), SnapshotRow),
    > {
        Seq::new(
            self.snapshots.len(),
            |i: int|
                {
                    let row = self.snapshots[i];
                    ((row.contract_id, row.network, row.storage_key, row.ledger_sequence), row)
                },
        )
    }

    /// Whether these are the rows of a page of the given shape.
    pub open spec fn fits(self, shape: PageShape) -> bool {
        &&& self.events.len() == shape.events
        &&& self.token_events.len() == shape.token_events
        &&& self.metrics.len() == shape.invocation_metrics
        &&& self.snapshots.len() == shape.storage_snapshots
        &&& self.ledger.len() == if shape.has_ledger {
            1nat
        } else {
            0
        }
    }
}

/// The cursor after an advance: it is written only where what is stored is lower or no number.
pub open spec fn advanced(stored: Option<nat>, value: u64) -> Option<nat> {
    match stored {
        Some(before) => if before < wrapped_i64(value) {
            Some(value as nat)
        } else {
            Some(before)
        },
        None => Some(value as nat),
    }
}

impl Store {
    /// After one step of writing a page.
    pub open spec fn after_step(self, page: PageRows, step: CommitStep) -> Store {
        match step {
            CommitStep::Events { from, to } => Store {
                events: inserted(
                    self.events,
                    page.event_rows().subrange(from as int, to as int),
                    event_clash(),
                ),
                ..self
            },
            CommitStep::Outbox { from, to } => Store {
                outbox: inserted(
                    self.outbox,
                    page.outbox_rows().subrange(from as int, to as int),
                    same_key(),
                ),
                ..self
            },
            CommitStep::TokenEvents { from, to } => Store {
                token_events: inserted(
                    self.token_events,
                    page.token_rows().subrange(from as int, to as int),
                    same_key(),
                ),
                ..self
            },
            CommitStep::InvocationMetrics { from, to } => Store {
                metrics: inserted(
                    self.metrics,
                    page.metric_rows().subrange(from as int, to as int),
                    same_key(),
                ),
                ..self
            },
            CommitStep::StorageSnapshots { from, to } => Store {
                snapshots: inserted(
                    self.snapshots,
                    page.snapshot_rows().subrange(from as int, to as int),
                    same_key(),
                ),
                ..self
            },
            CommitStep::Cursor { value } => Store { cursor: advanced(self.cursor, value), ..self },
            CommitStep::Ledger => Store {
                ledgers: inserted(self.ledgers, page.ledger, same_key()),
                ..self
            },
        }
    }

    /// After some steps of writing a page.
    pub open spec fn after_steps(self, page: PageRows, steps: Seq<CommitStep>) -> Store
        decreases steps.len(),
    {
        if steps.len() == 0 {
            self
        } else {
            self.after_steps(page, steps.drop_last()).after_step(page, steps.last())
        }
    }

    /// After a transaction that came through `done` of the steps of a page and was or was not
    /// committed then: what was not committed is taken back.
    pub open spec fn after_transaction(
        self,
        page: PageRows,
        shape: PageShape,
        done: nat,
        committed: bool,
    ) -> Store {
        if committed && done == shape.steps().len() {
            self.after_steps(page, shape.steps())
        } else {
            self
        }
    }

    /// With the whole page.
    pub open spec fn with_page(self, page: PageRows, cursor: Option<u64>) -> Store {
        Store {
            events: inserted(self.events, page.event_rows(), event_clash()),
            outbox: inserted(self.outbox, page.outbox_rows(), same_key()),
            token_events: inserted(self.token_events, page.token_rows(), same_key()),
            metrics: inserted(self.metrics, page.metric_rows(), same_key()),
            snapshots: inserted(self.snapshots, page.snapshot_rows(), same_key()),
            ledgers: inserted(self.ledgers, page.ledger, same_key()),
            cursor: match cursor {
                Some(value) => advanced(self.cursor, value),
                None => self.cursor,
            },
        }
    }
}

proof fn lemma_steps_in_parts(s: Store, page: PageRows, a: Seq<CommitStep>, b: Seq<CommitStep>)
    ensures
        s.after_steps(page, a).after_steps(page, b) == s.after_steps(page, a + b),
    decreases b.len(),
{
    if b.len() == 0 {
        assert(a + b =~= a);
    } else {
        lemma_steps_in_parts(s, page, a, b.drop_last());
        assert((a + b).drop_last() =~= a + b.drop_last());
    }
}

/// Where the first `k` batches of `n` rows end.
spec fn reached(n: nat, rows: nat, k: int) -> int {
    if k <= 0 {
        0
    } else {
        batch(n, rows, k - 1).1 as int
    }
}

proof fn lemma_next_batch<K, R>(
    table: Map<K, R>,
    all: Seq<(K, R)>,
    clash: spec_fn(K, K) -> bool,
    rows: nat,
    k: int,
)
    requires
        rows > 0,
        all.len() <= usize::MAX,
        0 <= k < batch_count(all.len(), rows),
    ensures
        ({
            let (from, to) = batch(all.len(), rows, k);
            &&& from as usize == reached(all.len(), rows, k)
            &&& to as usize == reached(all.len(), rows, k + 1)
            &&& 0 <= from < to <= all.len()
            &&& inserted(
                inserted(table, all.take(reached(all.len(), rows, k)), clash),
                all.subrange(from as int, to as int),
                clash,
            ) == inserted(table, all.take(reached(all.len(), rows, k + 1)), clash)
        }),
{
    let n = all.len();
    let (from, to) = batch(n, rows, k);
    batches_partition_the_rows(n, rows, 0, k);
    if k > 0 {
        batches_partition_the_rows(n, rows, 0, k - 1);
    } else {
        assert(0 * rows == 0);
    }
    writes_go_in_parts(table, all.take(from as int), all.subrange(from as int, to as int), clash);
    assert(all.take(from as int) + all.subrange(from as int, to as int) =~= all.take(to as int));
}

proof fn lemma_reached_all<K, R>(all: Seq<(K, R)>, rows: nat)
    requires
        rows > 0,
    ensures
        all.take(reached(all.len(), rows, batch_count(all.len(), rows) as int)) == all,
{
    let count = batch_count(all.len(), rows) as int;
    if all.len() == 0 {
        assert(all.take(0) =~= all);
    } else {
        batches_partition_the_rows(all.len(), rows, all.len() - 1, count - 1);
        batches_partition_the_rows(all.len(), rows, 0, count - 1);
        assert(all.take(all.len() as int) =~= all);
    }
}

proof fn lemma_event_steps_land(s: Store, page: PageRows, rows: nat, k: int)
    requires
        rows > 0,
        page.events.len() <= usize::MAX,
        0 <= k <= batch_count(page.events.len(), rows),
    ensures
        ({
            let end = reached(page.events.len(), rows, k);
            s.after_steps(page, event_steps(page.events.len(), rows, k)) == (Store {
                events: inserted(s.events, page.event_rows().take(end), event_clash()),
                outbox: inserted(s.outbox, page.outbox_rows().take(end), same_key()),
                ..s
            })
        }),
    decreases k,
{
    let n = page.events.len();
    let steps = event_steps(n, rows, k);
    if k == 0 {
        assert(page.event_rows().take(0) =~= Seq::<(EventKey, EventRow)>::empty());
        assert(page.outbox_rows().take(0) =~= Seq::<(Seq<u8>, EventRow)>::empty());
    } else {
        lemma_event_steps_land(s, page, rows, k - 1);
        lemma_next_batch(s.events, page.event_rows(), event_clash(), rows, k - 1);
        lemma_next_batch(s.outbox, page.outbox_rows(), same_key(), rows, k - 1);
        let before = event_steps(n, rows, k - 1);
        assert(steps.drop_last().drop_last() =~= before);
        assert(s.after_steps(page, steps.drop_last()) == s.after_steps(page, before).after_step(
            page,
            steps.drop_last().last(),
        ));
    }
}

proof fn lemma_token_steps_land(s: Store, page: PageRows, rows: nat, k: int)
    requires
        rows > 0,
        page.token_events.len() <= usize::MAX,
        0 <= k <= batch_count(page.token_events.len(), rows),
    ensures
        s.after_steps(page, token_steps(page.token_events.len(), rows).take(k)) == (Store {
            token_events: inserted(
                s.token_events,
                page.token_rows().take(reached(page.token_events.len(), rows, k)),
                same_key(),
            ),
            ..s
        }),
    decreases k,
{
    let steps = token_steps(page.token_events.len(), rows);
    if k == 0 {
        assert(page.token_rows().take(0) =~= Seq::<(Seq<u8>, TokenRow)>::empty());
    } else {
        lemma_token_steps_land(s, page, rows, k - 1);
        lemma_next_batch(s.token_events, page.token_rows(), same_key(), rows, k - 1);
        assert(steps.take(k).drop_last() =~= steps.take(k - 1));
    }
}

proof fn lemma_metric_steps_land(s: Store, page: PageRows, rows: nat, k: int)
    requires
        rows > 0,
        page.metrics.len() <= usize::MAX,
        0 <= k <= batch_count(page.metrics.len(), rows),
    ensures
        s.after_steps(page, metric_steps(page.metrics.len(), rows).take(k)) == (Store {
            metrics: inserted(
                s.metrics,
                page.metric_rows().take(reached(page.metrics.len(), rows, k)),
                same_key(),
            ),
            ..s
        }),
    decreases k,
{
    let steps = metric_steps(page.metrics.len(), rows);
    if k == 0 {
        assert(page.metric_rows().take(0) =~= Seq::<((Seq<char>, Seq<char>), MetricRow)>::empty());
    } else {
        lemma_metric_steps_land(s, page, rows, k - 1);
        lemma_next_batch(s.metrics, page.metric_rows(), same_key(), rows, k - 1);
        assert(steps.take(k).drop_last() =~= steps.take(k - 1));
    }
}

proof fn lemma_snapshot_steps_land(s: Store, page: PageRows, rows: nat, k: int)
    requires
        rows > 0,
        page.snapshots.len() <= usize::MAX,
        0 <= k <= batch_count(page.snapshots.len(), rows),
    ensures
        s.after_steps(page, snapshot_steps(page.snapshots.len(), rows).take(k)) == (Store {
            snapshots: inserted(
                s.snapshots,
                page.snapshot_rows().take(reached(page.snapshots.len(), rows, k)),
                same_key(),
            ),
            ..s
        }),
    decreases k,
{
    let steps = snapshot_steps(page.snapshots.len(), rows);
    if k == 0 {
        assert(page.snapshot_rows().take(0) =~= Seq::<
            ((Seq<char>, Seq<char>, Seq<char>, i64), SnapshotRow),
        >::empty());
    } else {
        lemma_snapshot_steps_land(s, page, rows, k - 1);
        lemma_next_batch(s.snapshots, page.snapshot_rows(), same_key(), rows, k - 1);
        assert(steps.take(k).drop_last() =~= steps.take(k - 1));
    }
}

proof fn lemma_last_steps_land(s: Store, page: PageRows, shape: PageShape)
    requires
        page.fits(shape),
    ensures
        s.after_steps(page, shape.last_steps()) == (Store {
            ledgers: inserted(s.ledgers, page.ledger, same_key()),
            cursor: match shape.cursor {
                Some(value) => advanced(s.cursor, value),
                None => s.cursor,
            },
            ..s
        }),
{
    reveal_with_fuel(Store::after_steps, 3);
    let steps = shape.last_steps();
    match shape.cursor {
        Some(value) => {
            let cursor = seq![CommitStep::Cursor { value }];
            if shape.has_ledger {
                assert(steps =~= seq![CommitStep::Cursor { value }, CommitStep::Ledger]);
                assert(steps.drop_last() =~= cursor);
                assert(cursor.drop_last() =~= Seq::<CommitStep>::empty());
            } else {
                assert(steps =~= cursor);
                assert(steps.drop_last() =~= Seq::<CommitStep>::empty());
            }
        },
        None => {
            if shape.has_ledger {
                assert(steps =~= seq![CommitStep::Ledger]);
                assert(steps.drop_last() =~= Seq::<CommitStep>::empty());
            } else {
                assert(steps =~= Seq::<CommitStep>::empty());
            }
        },
    }
}

/// All steps of a page together write the whole page, however it is cut into batches.
pub proof fn steps_write_the_whole_page(s: Store, page: PageRows, shape: PageShape)
    requires
        page.fits(shape),
    ensures
        s.after_steps(page, shape.steps()) == s.with_page(page, shape.cursor),
{
    let rows = batch_rows(shape.batch_size);
    let events = event_steps(
        page.events.len(),
        rows,
        batch_count(page.events.len(), rows) as int,
    );
    let tokens = token_steps(page.token_events.len(), rows);
    let metrics = metric_steps(page.metrics.len(), rows);
    let snapshots = snapshot_steps(page.snapshots.len(), rows);
    let s1 = s.after_steps(page, events);
    lemma_event_steps_land(s, page, rows, batch_count(page.events.len(), rows) as int);
    lemma_reached_all(page.event_rows(), rows);
    lemma_reached_all(page.outbox_rows(), rows);
    let s2 = s1.after_steps(page, tokens);
    lemma_token_steps_land(s1, page, rows, tokens.len() as int);
    assert(tokens.take(tokens.len() as int) =~= tokens);
    lemma_reached_all(page.token_rows(), rows);
    let s3 = s2.after_steps(page, metrics);
    lemma_metric_steps_land(s2, page, rows, metrics.len() as int);
    assert(metrics.take(metrics.len() as int) =~= metrics);
    lemma_reached_all(page.metric_rows(), rows);
    let s4 = s3.after_steps(page, snapshots);
    lemma_snapshot_steps_land(s3, page, rows, snapshots.len() as int);
    assert(snapshots.take(snapshots.len() as int) =~= snapshots);
    lemma_reached_all(page.snapshot_rows(), rows);
    lemma_last_steps_land(s4, page, shape);
    lemma_steps_in_parts(s, page, events, tokens);
    lemma_steps_in_parts(s, page, events + tokens, metrics);
    lemma_steps_in_parts(s, page, events + tokens + metrics, snapshots);
    lemma_steps_in_parts(s, page, shape.row_steps(), shape.last_steps());
}

/// A page is stored whole or not at all: a transaction that came through all steps and was
/// committed stores every row of it, and any other leaves the tables as they were.
pub proof fn pages_land_whole_or_not_at_all(
    s: Store,
    page: PageRows,
    shape: PageShape,
    done: nat,
    committed: bool,
)
    requires
        page.fits(shape),
    ensures
        s.after_transaction(page, shape, done, committed) == if committed && done
            == shape.steps().len() {
            s.with_page(page, shape.cursor)
        } else {
            s
        },
{
    steps_write_the_whole_page(s, page, shape);
}

/// Whatever happens to a page, the cursor never goes back.
pub proof fn the_cursor_only_goes_forward(
    s: Store,
    page: PageRows,
    shape: PageShape,
    done: nat,
    committed: bool,
)
    requires
        page.fits(shape),
    ensures
        s.cursor is Some ==> s.after_transaction(page, shape, done, committed).cursor is Some
            && s.cursor->0 <= s.after_transaction(page, shape, done, committed).cursor->0,
{
    steps_write_the_whole_page(s, page, shape);
}

/// A page that is stored a second time changes nothing.
pub proof fn pages_are_stored_once(s: Store, page: PageRows, cursor: Option<u64>)
    ensures
        s.with_page(page, cursor).with_page(page, cursor) == s.with_page(page, cursor),
{
    second_writes_change_nothing(s.events, page.event_rows(), event_clash());
    second_writes_change_nothing(s.outbox, page.outbox_rows(), same_key());
    second_writes_change_nothing(s.token_events, page.token_rows(), same_key());
    second_writes_change_nothing(s.metrics, page.metric_rows(), same_key());
    second_writes_change_nothing(s.snapshots, page.snapshot_rows(), same_key());
    second_writes_change_nothing(s.ledgers, page.ledger, same_key());
}

/// Where no two events share an id or a place in a transaction, none do after a page, whatever
/// happens to it.
pub proof fn pages_keep_events_apart(
    s: Store,
    page: PageRows,
    shape: PageShape,
    done: nat,
    committed: bool,
)
    requires
        page.fits(shape),
        apart(s.events, event_clash()),
    ensures
        apart(s.after_transaction(page, shape, done, committed).events, event_clash()),
{
    steps_write_the_whole_page(s, page, shape);
    writes_keep_keys_apart(s.events, page.event_rows(), event_clash());
}

} // verus!
