//! The outbox: deliveries of stored events to the stream, at least once and in order.
use vstd::prelude::*;

use crate::codec::json_strings;
use crate::codec::write_strings;
use crate::text::dec;
use crate::text::dec_text;
use crate::types::EventView;
use crate::types::SorobanEvent;

verus! {

broadcast use vstd::string::group_string_axioms;

/// The stream that events are published on.
pub const STREAM_KEY: &'static str = "trident:events";

/// Settings of the relay.
#[derive(Debug, Clone, Copy, PartialEq, Eq, Structural)]
pub struct RelayConfig {
    /// The time between two passes, in milliseconds.
    pub interval: u64,
    /// The most rows of a pass.
    pub batch_size: i64,
    /// The backlog from which on a warning is due.
    pub backlog_alert_threshold: i64,
    /// The length to which the stream is trimmed.
    pub stream_maxlen: u64,
}

impl RelayConfig {
    /// Whether a backlog calls for a warning.
    pub fn backlog_is_alarming(&self, backlog: i64) -> (r: bool)
        ensures
            r == (backlog >= self.backlog_alert_threshold),
    {
        backlog >= self.backlog_alert_threshold
    }
}

/// What became of a row that the relay took up.
#[derive(Debug, Clone, Copy, PartialEq, Eq, Structural)]
pub enum Delivery {
    /// The payload cannot be decoded, and never will be.
    Undecodable,
    Published,
    /// The stream did not take it.
    Failed,
}

/// A pass of the relay over the oldest rows that are not published.
#[derive(Debug)]
pub struct RelayPass {
    pending: Vec<i64>,
    done: Vec<i64>,
    published: usize,
    failed: bool,
}

/// Where a pass stands.
pub struct PassView {
    /// The rows of the pass, in order.
    pub pending: Seq<i64>,
    /// The rows that are not to be taken up again.
    pub done: Seq<i64>,
    /// How many of those reached the stream.
    pub published: nat,
    /// Whether a delivery failed.
    pub failed: bool,
}

impl View for RelayPass {
    type V = PassView;

    closed spec fn view(&self) -> PassView {
        PassView {
            pending: self.pending@,
            done: self.done@,
            published: self.published as nat,
            failed: self.failed,
        }
    }
}

impl PassView {
    /// Whether the rows that are done are the first ones of the pass, and no more were published
    /// than are done.
    pub open spec fn wf(self) -> bool {
        &&& self.done.len() <= self.pending.len()
        &&& self.done == self.pending.take(self.done.len() as int)
        &&& self.published <= self.done.len()
    }

    /// Whether there is another row to take up. The first failure ends the pass.
    pub open spec fn goes_on(self) -> bool {
        !self.failed && self.done.len() < self.pending.len()
    }

    /// Where the pass stands once the next row was taken up.
    pub open spec fn after(self, delivery: Delivery) -> PassView {
        match delivery {
            Delivery::Failed => PassView { failed: true, ..self },
            Delivery::Undecodable => PassView {
                done: self.done.push(self.pending[self.done.len() as int]),
                ..self
            },
            Delivery::Published => PassView {
                done: self.done.push(self.pending[self.done.len() as int]),
                published: self.published + 1,
                ..self
            },
        }
    }

    /// Where the pass stands once it took up rows with the given outcomes.
    pub open spec fn after_all(self, deliveries: Seq<Delivery>) -> PassView
        decreases deliveries.len(),
    {
        if deliveries.len() == 0 {
            self
        } else {
            let before = self.after_all(deliveries.drop_last());
            if before.goes_on() {
                before.after(deliveries.last())
            } else {
                before
            }
        }
    }
}

/// Whatever becomes of the rows, those that are marked are the first ones of the pass, in order:
/// none is skipped and none behind a failure is marked.
pub proof fn marked_rows_are_a_prefix(pass: PassView, deliveries: Seq<Delivery>)
    requires
        pass.wf(),
    ensures
        pass.after_all(deliveries).wf(),
        pass.after_all(deliveries).pending == pass.pending,
        pass.after_all(deliveries).done.len() >= pass.done.len(),
    decreases deliveries.len(),
{
    if deliveries.len() > 0 {
        marked_rows_are_a_prefix(pass, deliveries.drop_last());
        let before = pass.after_all(deliveries.drop_last());
        if before.goes_on() {
            let next = before.after(deliveries.last());
            if deliveries.last() != Delivery::Failed {
                assert(next.done =~= next.pending.take(next.done.len() as int));
            }
        }
    }
}

/// How many of some deliveries reached the stream.
pub open spec fn published_among(deliveries: Seq<Delivery>) -> nat
    decreases deliveries.len(),
{
    if deliveries.len() == 0 {
        0
    } else {
        published_among(deliveries.drop_last()) + if deliveries.last() == Delivery::Published {
            1nat
        } else {
            0
        }
    }
}

/// A pass in which no delivery fails marks all of its rows; one whose first failure is at a row
/// marks just the rows before it. What is counted as published are the deliveries among those that
/// reached the stream, and no row that cannot be decoded.
pub proof fn failures_end_a_pass(pass: PassView, deliveries: Seq<Delivery>, k: int)
    requires
        pass.wf(),
        !pass.failed,
        pass.done.len() == 0,
        0 <= k <= deliveries.len(),
        deliveries.len() <= pass.pending.len(),
        forall|i: int| 0 <= i < k ==> #[trigger] deliveries[i] != Delivery::Failed,
        k < deliveries.len() ==> deliveries[k] == Delivery::Failed,
    ensures
        pass.after_all(deliveries).done.len() == k,
        pass.after_all(deliveries).failed == (k < deliveries.len()),
        pass.after_all(deliveries).published == pass.published + published_among(
            deliveries.take(k),
        ),
    decreases deliveries.len(),
{
    if deliveries.len() > 0 {
        let shorter = deliveries.drop_last();
        let n = deliveries.len() - 1;
        assert(deliveries.last() == deliveries[n]);
        assert forall|i: int| 0 <= i < k && i < n implies #[trigger] shorter[i]
            != Delivery::Failed by {
            assert(shorter[i] == deliveries[i]);
        }
        if k <= n {
            if k < n {
                assert(shorter[k] == deliveries[k]);
            }
            failures_end_a_pass(pass, shorter, k);
            assert(shorter.take(k) =~= deliveries.take(k));
        } else {
            failures_end_a_pass(pass, shorter, n);
            assert(shorter.take(n) =~= shorter);
            assert(deliveries.take(k) =~= deliveries);
        }
        marked_rows_are_a_prefix(pass, shorter);
    } else {
        assert(deliveries.take(k) =~= deliveries);
    }
}

impl RelayPass {
    /// A pass over the given rows.
    pub fn new(pending: Vec<i64>) -> (r: Self)
        ensures
            r@.wf(),
            r@.pending == pending@,
            r@.done.len() == 0,
            r@.published == 0,
            !r@.failed,
    {
        let pass = RelayPass { pending, done: Vec::new(), published: 0, failed: false };
        assert(pass@.done =~= pass@.pending.take(0));
        pass
    }

    /// The index of the next row to take up.
    pub fn next_row(&self) -> (r: Option<usize>)
        ensures
            match r {
                Some(i) => self@.goes_on() && i == self@.done.len(),
                None => !self@.goes_on(),
            },
    {
        if self.failed || self.done.len() >= self.pending.len() {
            None
        } else {
            Some(self.done.len())
        }
    }

    /// Records what became of the row that was taken up.
    pub fn record(&mut self, delivery: Delivery)
        requires
            old(self)@.wf(),
            old(self)@.goes_on(),
        ensures
            final(self)@.wf(),
            final(self)@ == old(self)@.after(delivery),
    {
        let ghost before = self@;
        match delivery {
            Delivery::Failed => {
                self.failed = true;
            },
            Delivery::Undecodable => {
                let seq: i64 = self.pending[self.done.len()];
                self.done.push(seq);
            },
            Delivery::Published => {
                let n: usize = self.pending.len();
                assert(self.published < n);
                let seq: i64 = self.pending[self.done.len()];
                self.done.push(seq);
                self.published = self.published + 1;
            },
        }
        assert(self@ == before.after(delivery));
        assert(self@.done =~= self@.pending.take(self@.done.len() as int));
    }

    /// How many rows reached the stream.
    pub fn published(&self) -> (r: usize)
        ensures
            r == self@.published,
    {
        self.published
    }

    /// The rows to mark as published.
    pub fn marked(&self) -> (r: &[i64])
        ensures
            r@ == self@.done,
    {
        self.done.as_slice()
    }
}

/// The fields of an entry on the stream, each a name and a value. The body is given as JSON text,
/// and the id of the event stands last where it is known.
pub open spec fn stream_entry(event: EventView, data: Seq<char>, event_id: Option<Seq<char>>) -> Seq<
    (Seq<char>, Seq<char>),
> {
    let fields = seq![
        ("contract_id"@, event.contract_id),
        ("ledger_sequence"@, dec(event.ledger_sequence as nat)),
        ("ledger_timestamp"@, event.ledger_timestamp),
        ("transaction_hash"@, event.transaction_hash),
        ("event_index"@, dec(event.event_index as nat)),
        ("event_type"@, event.event_type.name()),
        ("topics"@, json_strings(event.topics)),
        ("data"@, data),
    ];
    match event_id {
        Some(id) => fields.push(("event_id"@, id)),
        None => fields,
    }
}

/// What names and values are.
pub open spec fn field_views(fields: Seq<(&str, String)>) -> Seq<(Seq<char>, Seq<char>)> {
    fields.map_values(|f: (&str, String)| (f.0@, f.1@))
}

/// The fields of the entry that is published for an event.
pub fn stream_fields(event: &SorobanEvent, data: &str, event_id: Option<&str>) -> (r: Vec<
    (&'static str, String),
>)
    ensures
        field_views(r@) == stream_entry(
            event@,
            data@,
            match event_id {
                Some(id) => Some(id@),
                None => None,
            },
        ),
{
    let mut fields: Vec<(&'static str, String)> = Vec::new();
    let topics = match write_strings(&event.topics) {
        Some(topics) => topics,
        None => vstd::pervasive::unreached(),
    };
    fields.push(("contract_id", event.contract_id.clone()));
    fields.push(("ledger_sequence", dec_text(event.ledger_sequence as u128)));
    fields.push(("ledger_timestamp", event.ledger_timestamp.clone()));
    fields.push(("transaction_hash", event.transaction_hash.clone()));
    fields.push(("event_index", dec_text(event.event_index as u128)));
    fields.push(("event_type", event.event_type.as_str().to_owned()));
    fields.push(("topics", topics));
    fields.push(("data", data.to_owned()));
    if let Some(id) = event_id {
        fields.push(("event_id", id.to_owned()));
    }
    assert(field_views(fields@) =~= stream_entry(
        event@,
        data@,
        match event_id {
            Some(id) => Some(id@),
            None => None,
        },
    ));
    fields
}

/// The entry for an event carries each of its fields under its own name, and the id of the event
/// behind them where it is known.
pub proof fn entries_name_the_fields_of_the_event(
    event: EventView,
    data: Seq<char>,
    id: Seq<char>,
)
    ensures
        stream_entry(event, data, None).len() == 8,
        stream_entry(event, data, None)[0] == ("contract_id"@, event.contract_id),
        stream_entry(event, data, None)[1] == ("ledger_sequence"@, dec(event.ledger_sequence as nat)),
        stream_entry(event, data, None)[2] == ("ledger_timestamp"@, event.ledger_timestamp),
        stream_entry(event, data, None)[3] == ("transaction_hash"@, event.transaction_hash),
        stream_entry(event, data, None)[4] == ("event_index"@, dec(event.event_index as nat)),
        stream_entry(event, data, None)[5] == ("event_type"@, event.event_type.name()),
        stream_entry(event, data, None)[6] == ("topics"@, json_strings(event.topics)),
        stream_entry(event, data, None)[7] == ("data"@, data),
        stream_entry(event, data, Some(id)) == stream_entry(event, data, None).push(
            ("event_id"@, id),
        ),
{
}

/// A delivery that failed leaves its row for later and ends the pass; any other is done with its
/// row, and only one that reached the stream is counted.
pub proof fn deliveries_are_told_apart(pass: PassView)
    requires
        pass.wf(),
        pass.goes_on(),
    ensures
        pass.after(Delivery::Failed).failed,
        !pass.after(Delivery::Failed).goes_on(),
        pass.after(Delivery::Failed).done == pass.done,
        pass.after(Delivery::Failed).published == pass.published,
        !pass.after(Delivery::Undecodable).failed,
        pass.after(Delivery::Undecodable).done == pass.done.push(
            pass.pending[pass.done.len() as int],
        ),
        pass.after(Delivery::Undecodable).published == pass.published,
        !pass.after(Delivery::Published).failed,
        pass.after(Delivery::Published).done == pass.done.push(
            pass.pending[pass.done.len() as int],
        ),
        pass.after(Delivery::Published).published == pass.published + 1,
{
}

/// A backlog is alarming from its threshold on.
pub proof fn backlogs_alarm_from_the_threshold_on(config: RelayConfig, backlog: i64, r: bool)
    requires
        call_ensures(RelayConfig::backlog_is_alarming, (&config, backlog), r),
    ensures
        backlog < config.backlog_alert_threshold ==> !r,
        backlog >= config.backlog_alert_threshold ==> r,
{
}

} // verus!
