//! The rows of a page, transposed into the columns that a batch insert binds.
use vstd::prelude::*;

use crate::errors::TridentError;
use crate::ids::event_id;
use crate::ids::event_uuid;
use crate::indexer::parser::invocation_metrics::InvocationMetrics;
use crate::indexer::parser::token_events::TokenEvent;
use crate::json::json_of_texts;
use crate::json::Json;
use crate::json::JsonView;
use crate::text::opt_clone;
use crate::text::opt_view;
use crate::text::views;
use crate::timestamp::ledger_time;
use crate::timestamp::ledger_time_of;
use crate::timestamp::Timestamp;
use crate::timestamp::timestamp_read;
use crate::types::EventType;
use crate::types::SorobanEvent;
use crate::wide::wrap_i32;
use crate::wide::wrap_i64;
use crate::wide::wrapped_i32;
use crate::wide::wrapped_i64;
use crate::wide::wrapped_u32;
use crate::wide::wrapped_u64;
use crate::wide::wrapping_round_trips;

verus! {

broadcast use vstd::string::group_string_axioms;

/// The points in time that some texts read as, or the message of the first error.
pub open spec fn times_of(texts: Seq<Seq<char>>) -> Result<Seq<Timestamp>, Seq<char>>
    decreases texts.len(),
{
    if texts.len() == 0 {
        Ok(Seq::empty())
    } else {
        match times_of(texts.drop_last()) {
            Err(e) => Err(e),
            Ok(before) => match ledger_time_of(texts.last()) {
                Err(e) => Err(e),
                Ok(t) => Ok(before.push(t)),
            },
        }
    }
}

proof fn lemma_time_error_stays(texts: Seq<Seq<char>>, k: int)
    requires
        0 <= k <= texts.len(),
        times_of(texts.take(k)) is Err,
    ensures
        times_of(texts) == times_of(texts.take(k)),
    decreases texts.len() - k,
{
    if k == texts.len() {
        assert(texts.take(k) =~= texts);
    } else {
        assert(texts.take(k + 1).drop_last() =~= texts.take(k));
        lemma_time_error_stays(texts, k + 1);
    }
}

proof fn lemma_time_step(texts: Seq<Seq<char>>, i: int)
    requires
        0 <= i < texts.len(),
    ensures
        texts.take(i + 1).drop_last() == texts.take(i),
        texts.take(i + 1).last() == texts[i],
        texts.take(texts.len() as int) == texts,
        texts.take(0) == Seq::<Seq<char>>::empty(),
{
    assert(texts.take(i + 1).drop_last() =~= texts.take(i));
    assert(texts.take(texts.len() as int) =~= texts);
    assert(texts.take(0) =~= Seq::<Seq<char>>::empty());
}

/// The name under which the kind of an event is stored.
pub fn event_type_str(event_type: &EventType) -> (r: &'static str)
    ensures
        r@ == event_type.name(),
{
    event_type.as_str()
}

/// The columns of a batch of events.
#[derive(Debug)]
pub struct EventColumns<'a> {
    pub ids: Vec<[u8; 16]>,
    pub contract_ids: Vec<String>,
    pub ledger_sequences: Vec<i64>,
    pub ledger_timestamps: Vec<Timestamp>,
    pub transaction_hashes: Vec<String>,
    pub event_indexes: Vec<i32>,
    pub event_types: Vec<String>,
    pub topics: Vec<Json>,
    pub data: Vec<&'a Json>,
}

/// A row of the events table.
pub struct EventRow {
    pub id: Seq<u8>,
    pub contract_id: Seq<char>,
    pub ledger_sequence: i64,
    pub ledger_timestamp: Timestamp,
    pub transaction_hash: Seq<char>,
    pub event_index: i32,
    pub event_type: Seq<char>,
    pub topics: JsonView,
    pub data: JsonView,
}

impl<'a> EventColumns<'a> {
    /// Whether every column has `n` rows.
    pub open spec fn has_rows(self, n: nat) -> bool {
        &&& self.ids@.len() == n
        &&& self.contract_ids@.len() == n
        &&& self.ledger_sequences@.len() == n
        &&& self.ledger_timestamps@.len() == n
        &&& self.transaction_hashes@.len() == n
        &&& self.event_indexes@.len() == n
        &&& self.event_types@.len() == n
        &&& self.topics@.len() == n
        &&& self.data@.len() == n
    }

    /// The row with index `i`.
    pub open spec fn row(self, i: int) -> EventRow {
        EventRow {
            id: self.ids@[i]@,
            contract_id: self.contract_ids@[i]@,
            ledger_sequence: self.ledger_sequences@[i],
            ledger_timestamp: self.ledger_timestamps@[i],
            transaction_hash: self.transaction_hashes@[i]@,
            event_index: self.event_indexes@[i],
            event_type: self.event_types@[i]@,
            topics: self.topics@[i]@,
            data: self.data@[i]@,
        }
    }
}

/// The row of an event.
pub open spec fn event_row(s: SorobanEvent, time: Timestamp) -> EventRow {
    EventRow {
        id: event_id(
            s.contract_id@,
            s.ledger_sequence as nat,
            s.event_index as nat,
        ),
        contract_id: s.contract_id@,
        ledger_sequence: wrapped_i64(s.ledger_sequence) as i64,
        ledger_timestamp: time,
        transaction_hash: s.transaction_hash@,
        event_index: wrapped_i32(s.event_index) as i32,
        event_type: s.event_type.name(),
        topics: crate::json::texts_json(views(s.topics@)),
        data: s.data@,
    }
}

/// When the ledgers of some events closed, as texts.
pub open spec fn event_times(rows: Seq<SorobanEvent>) -> Seq<Seq<char>> {
    rows.map_values(|s: SorobanEvent| s.ledger_timestamp@)
}

impl<'a> EventColumns<'a> {
    /// The columns of some events, one row each. It fails on the first event whose time cannot be
    /// read.
    pub fn build(rows: &'a [SorobanEvent]) -> (r: Result<Self, TridentError>)
        ensures
            match r {
                Ok(columns) => times_of(event_times(rows@)) is Ok && columns.has_rows(rows@.len())
                    && forall|i: int|
                    0 <= i < rows@.len() ==> #[trigger] columns.row(i) == event_row(
                        rows@[i],
                        times_of(event_times(rows@))->Ok_0[i],
                    ),
                Err(e) => e is StorageError && times_of(event_times(rows@)) == Err::<
                    Seq<Timestamp>,
                    Seq<char>,
                >(e.cause().text()),
            },
    {
        let mut columns = EventColumns {
            ids: Vec::new(),
            contract_ids: Vec::new(),
            ledger_sequences: Vec::new(),
            ledger_timestamps: Vec::new(),
            transaction_hashes: Vec::new(),
            event_indexes: Vec::new(),
            event_types: Vec::new(),
            topics: Vec::new(),
            data: Vec::new(),
        };
        let ghost texts = event_times(rows@);
        let ghost mut times = Seq::<Timestamp>::empty();
        assert(texts.take(0) =~= Seq::<Seq<char>>::empty());
        let mut i: usize = 0;
        while i < rows.len()
            invariant
                i <= rows.len(),
                texts == event_times(rows@),
                times_of(texts.take(i as int)) == Ok::<Seq<Timestamp>, Seq<char>>(times),
                times.len() == i,
                columns.has_rows(i as nat),
                forall|k: int|
                    0 <= k < i ==> #[trigger] columns.row(k) == event_row(rows@[k], times[k]),
            decreases rows.len() - i,
        {
            let s = &rows[i];
            proof {
                lemma_time_step(texts, i as int);
            }
            let time = match ledger_time(s.ledger_timestamp.as_str()) {
                Ok(time) => time,
                Err(e) => {
                    proof {
                        lemma_time_error_stays(texts, i + 1);
                    }
                    return Err(e);
                },
            };
            proof {
                times = times.push(time);
            }
            let ghost before = columns;
            columns.ids.push(
                event_uuid(s.contract_id.as_str(), s.ledger_sequence, s.event_index),
            );
            columns.contract_ids.push(s.contract_id.clone());
            columns.ledger_sequences.push(wrap_i64(s.ledger_sequence));
            columns.ledger_timestamps.push(time);
            columns.transaction_hashes.push(s.transaction_hash.clone());
            columns.event_indexes.push(wrap_i32(s.event_index));
            columns.event_types.push(event_type_str(&s.event_type).to_owned());
            columns.topics.push(json_of_texts(s.topics.as_slice()));
            columns.data.push(&s.data);
            assert forall|k: int| 0 <= k < i + 1 implies #[trigger] columns.row(k)
                == event_row(rows@[k], times[k]) by {
                if k < i {
                    assert(columns.row(k) == before.row(k));
                }
            }
            i = i + 1;
        }
        assert(texts.take(i as int) =~= texts);
        Ok(columns)
    }
}

/// A token event with the event that it is projected from.
#[derive(Debug)]
pub struct TokenProjection<'a> {
    pub event: &'a SorobanEvent,
    pub token: &'a TokenEvent,
}

/// The columns of a batch of token events.
#[derive(Debug)]
pub struct TokenColumns {
    pub event_ids: Vec<[u8; 16]>,
    pub contract_ids: Vec<String>,
    pub event_types: Vec<String>,
    pub from_addresses: Vec<Option<String>>,
    pub to_addresses: Vec<Option<String>>,
    pub spender_addresses: Vec<Option<String>>,
    pub admin_addresses: Vec<Option<String>>,
    pub amounts: Vec<Option<String>>,
    pub expiration_ledgers: Vec<Option<i64>>,
    pub asset_codes: Vec<Option<String>>,
    pub asset_issuers: Vec<Option<String>>,
    pub ledger_sequences: Vec<i64>,
    pub ledger_timestamps: Vec<Timestamp>,
    pub transaction_hashes: Vec<String>,
    pub event_indexes: Vec<i32>,
}

/// A row of the token events table.
pub struct TokenRow {
    pub event_id: Seq<u8>,
    pub contract_id: Seq<char>,
    pub event_type: Seq<char>,
    pub from: Option<Seq<char>>,
    pub to: Option<Seq<char>>,
    pub spender: Option<Seq<char>>,
    pub admin: Option<Seq<char>>,
    pub amount: Option<Seq<char>>,
    pub expiration_ledger: Option<i64>,
    pub asset_code: Option<Seq<char>>,
    pub asset_issuer: Option<Seq<char>>,
    pub ledger_sequence: i64,
    pub ledger_timestamp: Timestamp,
    pub transaction_hash: Seq<char>,
    pub event_index: i32,
}

impl TokenColumns {
    /// Whether every column has `n` rows.
    pub open spec fn has_rows(self, n: nat) -> bool {
        &&& self.event_ids@.len() == n
        &&& self.contract_ids@.len() == n
        &&& self.event_types@.len() == n
        &&& self.from_addresses@.len() == n
        &&& self.to_addresses@.len() == n
        &&& self.spender_addresses@.len() == n
        &&& self.admin_addresses@.len() == n
        &&& self.amounts@.len() == n
        &&& self.expiration_ledgers@.len() == n
        &&& self.asset_codes@.len() == n
        &&& self.asset_issuers@.len() == n
        &&& self.ledger_sequences@.len() == n
        &&& self.ledger_timestamps@.len() == n
        &&& self.transaction_hashes@.len() == n
        &&& self.event_indexes@.len() == n
    }

    /// The row with index `i`.
    pub open spec fn row(self, i: int) -> TokenRow {
        TokenRow {
            event_id: self.event_ids@[i]@,
            contract_id: self.contract_ids@[i]@,
            event_type: self.event_types@[i]@,
            from: opt_view(self.from_addresses@[i]),
            to: opt_view(self.to_addresses@[i]),
            spender: opt_view(self.spender_addresses@[i]),
            admin: opt_view(self.admin_addresses@[i]),
            amount: opt_view(self.amounts@[i]),
            expiration_ledger: self.expiration_ledgers@[i],
            asset_code: opt_view(self.asset_codes@[i]),
            asset_issuer: opt_view(self.asset_issuers@[i]),
            ledger_sequence: self.ledger_sequences@[i],
            ledger_timestamp: self.ledger_timestamps@[i],
            transaction_hash: self.transaction_hashes@[i]@,
            event_index: self.event_indexes@[i],
        }
    }
}

/// The row of a token event.
pub open spec fn token_row(s: TokenProjection<'_>, time: Timestamp) -> TokenRow {
    TokenRow {
        event_id: event_id(
            s.event.contract_id@,
            s.event.ledger_sequence as nat,
            s.event.event_index as nat,
        ),
        contract_id: s.event.contract_id@,
        event_type: s.token.event_type.name(),
        from: opt_view(s.token.from),
        to: opt_view(s.token.to),
        spender: opt_view(s.token.spender),
        admin: opt_view(s.token.admin),
        amount: opt_view(s.token.amount),
        expiration_ledger: s.token.expiration_ledger,
        asset_code: opt_view(s.token.asset_code),
        asset_issuer: opt_view(s.token.asset_issuer),
        ledger_sequence: wrapped_i64(s.event.ledger_sequence) as i64,
        ledger_timestamp: time,
        transaction_hash: s.event.transaction_hash@,
        event_index: wrapped_i32(s.event.event_index) as i32,
    }
}

/// When the ledgers of some token events closed, as texts.
pub open spec fn token_times(rows: Seq<TokenProjection<'_>>) -> Seq<Seq<char>> {
    rows.map_values(|s: TokenProjection<'_>| s.event.ledger_timestamp@)
}

impl TokenColumns {
    /// The columns of some token events, one row each. It fails on the first event whose time
    /// cannot be read.
    pub fn build(rows: &[TokenProjection<'_>]) -> (r: Result<Self, TridentError>)
        ensures
            match r {
                Ok(columns) => times_of(token_times(rows@)) is Ok && columns.has_rows(rows@.len())
                    && forall|i: int|
                    0 <= i < rows@.len() ==> #[trigger] columns.row(i) == token_row(
                        rows@[i],
                        times_of(token_times(rows@))->Ok_0[i],
                    ),
                Err(e) => e is StorageError && times_of(token_times(rows@)) == Err::<
                    Seq<Timestamp>,
                    Seq<char>,
                >(e.cause().text()),
            },
    {
        let mut columns = TokenColumns {
            event_ids: Vec::new(),
            contract_ids: Vec::new(),
            event_types: Vec::new(),
            from_addresses: Vec::new(),
            to_addresses: Vec::new(),
            spender_addresses: Vec::new(),
            admin_addresses: Vec::new(),
            amounts: Vec::new(),
            expiration_ledgers: Vec::new(),
            asset_codes: Vec::new(),
            asset_issuers: Vec::new(),
            ledger_sequences: Vec::new(),
            ledger_timestamps: Vec::new(),
            transaction_hashes: Vec::new(),
            event_indexes: Vec::new(),
        };
        let ghost texts = token_times(rows@);
        let ghost mut times = Seq::<Timestamp>::empty();
        assert(texts.take(0) =~= Seq::<Seq<char>>::empty());
        let mut i: usize = 0;
        while i < rows.len()
            invariant
                i <= rows.len(),
                texts == token_times(rows@),
                times_of(texts.take(i as int)) == Ok::<Seq<Timestamp>, Seq<char>>(times),
                times.len() == i,
                columns.has_rows(i as nat),
                forall|k: int|
                    0 <= k < i ==> #[trigger] columns.row(k) == token_row(rows@[k], times[k]),
            decreases rows.len() - i,
        {
            let s = &rows[i];
            proof {
                lemma_time_step(texts, i as int);
            }
            let time = match ledger_time(s.event.ledger_timestamp.as_str()) {
                Ok(time) => time,
                Err(e) => {
                    proof {
                        lemma_time_error_stays(texts, i + 1);
                    }
                    return Err(e);
                },
            };
            proof {
                times = times.push(time);
            }
            let ghost before = columns;
            columns.event_ids.push(
                event_uuid(s.event.contract_id.as_str(), s.event.ledger_sequence, s.event.event_index),
            );
            columns.contract_ids.push(s.event.contract_id.clone());
            columns.event_types.push(s.token.event_type.as_str().to_owned());
            columns.from_addresses.push(opt_clone(&s.token.from));
            columns.to_addresses.push(opt_clone(&s.token.to));
            columns.spender_addresses.push(opt_clone(&s.token.spender));
            columns.admin_addresses.push(opt_clone(&s.token.admin));
            columns.amounts.push(opt_clone(&s.token.amount));
            columns.expiration_ledgers.push(s.token.expiration_ledger);
            columns.asset_codes.push(opt_clone(&s.token.asset_code));
            columns.asset_issuers.push(opt_clone(&s.token.asset_issuer));
            columns.ledger_sequences.push(wrap_i64(s.event.ledger_sequence));
            columns.ledger_timestamps.push(time);
            columns.transaction_hashes.push(s.event.transaction_hash.clone());
            columns.event_indexes.push(wrap_i32(s.event.event_index));
            assert forall|k: int| 0 <= k < i + 1 implies #[trigger] columns.row(k)
                == token_row(rows@[k], times[k]) by {
                if k < i {
                    assert(columns.row(k) == before.row(k));
                }
            }
            i = i + 1;
        }
        assert(texts.take(i as int) =~= texts);
        Ok(columns)
    }
}

/// What a contract spent in a transaction.
#[derive(Debug)]
pub struct InvocationMetricRow<'a> {
    pub contract_id: &'a str,
    pub transaction_hash: &'a str,
    pub ledger_sequence: u64,
    pub ledger_timestamp: &'a str,
    pub metrics: &'a InvocationMetrics,
}

/// The columns of a batch of invocation metrics.
#[derive(Debug)]
pub struct MetricColumns {
    pub contract_ids: Vec<String>,
    pub transaction_hashes: Vec<String>,
    pub ledger_sequences: Vec<i64>,
    pub ledger_timestamps: Vec<Timestamp>,
    pub fee_charged: Vec<i64>,
    pub resource_fee: Vec<Option<i64>>,
    pub cpu_instructions: Vec<Option<i64>>,
    pub read_bytes: Vec<Option<i64>>,
    pub write_bytes: Vec<Option<i64>>,
    pub provenance: Vec<String>,
}

/// A row of the invocation metrics table.
pub struct MetricRow {
    pub contract_id: Seq<char>,
    pub transaction_hash: Seq<char>,
    pub ledger_sequence: i64,
    pub ledger_timestamp: Timestamp,
    pub fee_charged: i64,
    pub resource_fee: Option<i64>,
    pub cpu_instructions: Option<i64>,
    pub read_bytes: Option<i64>,
    pub write_bytes: Option<i64>,
    pub provenance: Seq<char>,
}

impl MetricColumns {
    /// Whether every column has `n` rows.
    pub open spec fn has_rows(self, n: nat) -> bool {
        &&& self.contract_ids@.len() == n
        &&& self.transaction_hashes@.len() == n
        &&& self.ledger_sequences@.len() == n
        &&& self.ledger_timestamps@.len() == n
        &&& self.fee_charged@.len() == n
        &&& self.resource_fee@.len() == n
        &&& self.cpu_instructions@.len() == n
        &&& self.read_bytes@.len() == n
        &&& self.write_bytes@.len() == n
        &&& self.provenance@.len() == n
    }

    /// The row with index `i`.
    pub open spec fn row(self, i: int) -> MetricRow {
        MetricRow {
            contract_id: self.contract_ids@[i]@,
            transaction_hash: self.transaction_hashes@[i]@,
            ledger_sequence: self.ledger_sequences@[i],
            ledger_timestamp: self.ledger_timestamps@[i],
            fee_charged: self.fee_charged@[i],
            resource_fee: self.resource_fee@[i],
            cpu_instructions: self.cpu_instructions@[i],
            read_bytes: self.read_bytes@[i],
            write_bytes: self.write_bytes@[i],
            provenance: self.provenance@[i]@,
        }
    }
}

/// The row of invocation metrics.
pub open spec fn metric_row(s: InvocationMetricRow<'_>, time: Timestamp) -> MetricRow {
    MetricRow {
        contract_id: s.contract_id@,
        transaction_hash: s.transaction_hash@,
        ledger_sequence: wrapped_i64(s.ledger_sequence) as i64,
        ledger_timestamp: time,
        fee_charged: s.metrics.fee_charged,
        resource_fee: s.metrics.resource_fee,
        cpu_instructions: s.metrics.cpu_instructions,
        read_bytes: s.metrics.read_bytes,
        write_bytes: s.metrics.write_bytes,
        provenance: s.metrics.provenance@,
    }
}

/// When the ledgers of some invocations closed, as texts.
pub open spec fn metric_times(rows: Seq<InvocationMetricRow<'_>>) -> Seq<Seq<char>> {
    rows.map_values(|s: InvocationMetricRow<'_>| s.ledger_timestamp@)
}

impl MetricColumns {
    /// The columns of some invocation metrics, one row each. It fails on the first one whose time
    /// cannot be read.
    pub fn build(rows: &[InvocationMetricRow<'_>]) -> (r: Result<Self, TridentError>)
        ensures
            match r {
                Ok(columns) => times_of(metric_times(rows@)) is Ok && columns.has_rows(rows@.len())
                    && forall|i: int|
                    0 <= i < rows@.len() ==> #[trigger] columns.row(i) == metric_row(
                        rows@[i],
                        times_of(metric_times(rows@))->Ok_0[i],
                    ),
                Err(e) => e is StorageError && times_of(metric_times(rows@)) == Err::<
                    Seq<Timestamp>,
                    Seq<char>,
                >(e.cause().text()),
            },
    {
        let mut columns = MetricColumns {
            contract_ids: Vec::new(),
            transaction_hashes: Vec::new(),
            ledger_sequences: Vec::new(),
            ledger_timestamps: Vec::new(),
            fee_charged: Vec::new(),
            resource_fee: Vec::new(),
            cpu_instructions: Vec::new(),
            read_bytes: Vec::new(),
            write_bytes: Vec::new(),
            provenance: Vec::new(),
        };
        let ghost texts = metric_times(rows@);
        let ghost mut times = Seq::<Timestamp>::empty();
        assert(texts.take(0) =~= Seq::<Seq<char>>::empty());
        let mut i: usize = 0;
        while i < rows.len()
            invariant
                i <= rows.len(),
                texts == metric_times(rows@),
                times_of(texts.take(i as int)) == Ok::<Seq<Timestamp>, Seq<char>>(times),
                times.len() == i,
                columns.has_rows(i as nat),
                forall|k: int|
                    0 <= k < i ==> #[trigger] columns.row(k) == metric_row(rows@[k], times[k]),
            decreases rows.len() - i,
        {
            let s = &rows[i];
            proof {
                lemma_time_step(texts, i as int);
            }
            let time = match ledger_time(s.ledger_timestamp) {
                Ok(time) => time,
                Err(e) => {
                    proof {
                        lemma_time_error_stays(texts, i + 1);
                    }
                    return Err(e);
                },
            };
            proof {
                times = times.push(time);
            }
            let ghost before = columns;
            columns.contract_ids.push(s.contract_id.to_owned());
            columns.transaction_hashes.push(s.transaction_hash.to_owned());
            columns.ledger_sequences.push(wrap_i64(s.ledger_sequence));
            columns.ledger_timestamps.push(time);
            columns.fee_charged.push(s.metrics.fee_charged);
            columns.resource_fee.push(s.metrics.resource_fee);
            columns.cpu_instructions.push(s.metrics.cpu_instructions);
            columns.read_bytes.push(s.metrics.read_bytes);
            columns.write_bytes.push(s.metrics.write_bytes);
            columns.provenance.push(s.metrics.provenance.to_owned());
            assert forall|k: int| 0 <= k < i + 1 implies #[trigger] columns.row(k)
                == metric_row(rows@[k], times[k]) by {
                if k < i {
                    assert(columns.row(k) == before.row(k));
                }
            }
            i = i + 1;
        }
        assert(texts.take(i as int) =~= texts);
        Ok(columns)
    }
}

/// A value that a contract stores, ready to be written.
#[derive(Debug)]
pub struct StorageSnapshotRow<'a> {
    pub contract_id: &'a str,
    pub storage_key: &'a str,
    pub key_json: &'a Json,
    pub value_json: Option<&'a Json>,
    pub ledger_sequence: u64,
}

/// What a JSON value is, where there is one.
pub open spec fn opt_json(json: Option<&Json>) -> Option<JsonView> {
    match json {
        Some(j) => Some(j@),
        None => None,
    }
}

/// The columns of a batch of storage snapshots.
#[derive(Debug)]
pub struct SnapshotColumns<'a> {
    pub contract_ids: Vec<String>,
    pub networks: Vec<String>,
    pub storage_keys: Vec<String>,
    pub key_jsons: Vec<&'a Json>,
    pub value_jsons: Vec<Option<&'a Json>>,
    pub ledger_sequences: Vec<i64>,
}

/// A row of the storage snapshots table.
pub struct SnapshotRow {
    pub contract_id: Seq<char>,
    pub network: Seq<char>,
    pub storage_key: Seq<char>,
    pub key_json: JsonView,
    pub value_json: Option<JsonView>,
    pub ledger_sequence: i64,
}

impl<'a> SnapshotColumns<'a> {
    /// Whether every column has `n` rows.
    pub open spec fn has_rows(self, n: nat) -> bool {
        &&& self.contract_ids@.len() == n
        &&& self.networks@.len() == n
        &&& self.storage_keys@.len() == n
        &&& self.key_jsons@.len() == n
        &&& self.value_jsons@.len() == n
        &&& self.ledger_sequences@.len() == n
    }

    /// The row with index `i`.
    pub open spec fn row(self, i: int) -> SnapshotRow {
        SnapshotRow {
            contract_id: self.contract_ids@[i]@,
            network: self.networks@[i]@,
            storage_key: self.storage_keys@[i]@,
            key_json: self.key_jsons@[i]@,
            value_json: opt_json(self.value_jsons@[i]),
            ledger_sequence: self.ledger_sequences@[i],
        }
    }
}

/// The row of a storage snapshot.
pub open spec fn snapshot_row(s: StorageSnapshotRow<'_>, network: Seq<char>) -> SnapshotRow {
    SnapshotRow {
        contract_id: s.contract_id@,
        network: network,
        storage_key: s.storage_key@,
        key_json: s.key_json@,
        value_json: opt_json(s.value_json),
        ledger_sequence: wrapped_i64(s.ledger_sequence) as i64,
    }
}

impl<'a> SnapshotColumns<'a> {
    /// The columns of some storage snapshots of a network, one row each.
    pub fn build(rows: &'a [StorageSnapshotRow<'a>], network: &str) -> (r: Self)
        ensures
            r.has_rows(rows@.len()),
            forall|i: int|
                0 <= i < rows@.len() ==> #[trigger] r.row(i) == snapshot_row(rows@[i], network@),
    {
        let mut columns = SnapshotColumns {
            contract_ids: Vec::new(),
            networks: Vec::new(),
            storage_keys: Vec::new(),
            key_jsons: Vec::new(),
            value_jsons: Vec::new(),
            ledger_sequences: Vec::new(),
        };
        let mut i: usize = 0;
        while i < rows.len()
            invariant
                i <= rows.len(),
                columns.has_rows(i as nat),
                forall|k: int|
                    0 <= k < i ==> #[trigger] columns.row(k) == snapshot_row(rows@[k], network@),
            decreases rows.len() - i,
        {
            let s = &rows[i];
            let ghost before = columns;
            columns.contract_ids.push(s.contract_id.to_owned());
            columns.networks.push(network.to_owned());
            columns.storage_keys.push(s.storage_key.to_owned());
            columns.key_jsons.push(s.key_json);
            columns.value_jsons.push(s.value_json);
            columns.ledger_sequences.push(wrap_i64(s.ledger_sequence));
            assert forall|k: int| 0 <= k < i + 1 implies #[trigger] columns.row(k)
                == snapshot_row(rows@[k], network@) by {
                if k < i {
                    assert(columns.row(k) == before.row(k));
                }
            }
            i = i + 1;
        }
        columns
    }
}

/// In the columns of a batch each event stands at its own place, every field in the column of its
/// name: the texts and the body as they are, numbers with the same bits, topics as an array of texts,
/// and the id that contract, ledger and position make.
pub proof fn event_columns_hold_the_fields(
    columns: EventColumns<'_>,
    event: SorobanEvent,
    time: Timestamp,
    i: int,
)
    requires
        columns.row(i) == event_row(event, time),
    ensures
        columns.ids@[i]@ == event_id(
            event.contract_id@,
            event.ledger_sequence as nat,
            event.event_index as nat,
        ),
        columns.contract_ids@[i]@ == event.contract_id@,
        columns.transaction_hashes@[i]@ == event.transaction_hash@,
        columns.event_types@[i]@ == event.event_type.name(),
        columns.ledger_timestamps@[i] == time,
        wrapped_u64(columns.ledger_sequences@[i]) == event.ledger_sequence,
        wrapped_u32(columns.event_indexes@[i]) == event.event_index,
        columns.data@[i]@ == event.data@,
        columns.topics@[i]@ is Array,
        columns.topics@[i]@->Array_0.len() == event.topics@.len(),
        forall|k: int|
            0 <= k < event.topics@.len() ==> #[trigger] columns.topics@[i]@->Array_0[k]
                == JsonView::String(event.topics@[k]@),
{
    wrapping_round_trips(event.ledger_sequence, event.event_index);
}

/// In the columns of a batch each token event stands at its own place, every field in the column of
/// its name, beside what it has from the event that it is projected from.
pub proof fn token_columns_hold_the_fields(
    columns: TokenColumns,
    s: TokenProjection<'_>,
    time: Timestamp,
    i: int,
)
    requires
        columns.row(i) == token_row(s, time),
    ensures
        columns.event_ids@[i]@ == event_id(
            s.event.contract_id@,
            s.event.ledger_sequence as nat,
            s.event.event_index as nat,
        ),
        columns.contract_ids@[i]@ == s.event.contract_id@,
        columns.event_types@[i]@ == s.token.event_type.name(),
        opt_view(columns.from_addresses@[i]) == opt_view(s.token.from),
        opt_view(columns.to_addresses@[i]) == opt_view(s.token.to),
        opt_view(columns.spender_addresses@[i]) == opt_view(s.token.spender),
        opt_view(columns.admin_addresses@[i]) == opt_view(s.token.admin),
        opt_view(columns.amounts@[i]) == opt_view(s.token.amount),
        columns.expiration_ledgers@[i] == s.token.expiration_ledger,
        opt_view(columns.asset_codes@[i]) == opt_view(s.token.asset_code),
        opt_view(columns.asset_issuers@[i]) == opt_view(s.token.asset_issuer),
        wrapped_u64(columns.ledger_sequences@[i]) == s.event.ledger_sequence,
        columns.ledger_timestamps@[i] == time,
        columns.transaction_hashes@[i]@ == s.event.transaction_hash@,
        wrapped_u32(columns.event_indexes@[i]) == s.event.event_index,
{
    wrapping_round_trips(s.event.ledger_sequence, s.event.event_index);
}

/// In the columns of a batch each invocation stands at its own place, every field in the column of
/// its name.
pub proof fn metric_columns_hold_the_fields(
    columns: MetricColumns,
    s: InvocationMetricRow<'_>,
    time: Timestamp,
    i: int,
)
    requires
        columns.row(i) == metric_row(s, time),
    ensures
        columns.contract_ids@[i]@ == s.contract_id@,
        columns.transaction_hashes@[i]@ == s.transaction_hash@,
        wrapped_u64(columns.ledger_sequences@[i]) == s.ledger_sequence,
        columns.ledger_timestamps@[i] == time,
        columns.fee_charged@[i] == s.metrics.fee_charged,
        columns.resource_fee@[i] == s.metrics.resource_fee,
        columns.cpu_instructions@[i] == s.metrics.cpu_instructions,
        columns.read_bytes@[i] == s.metrics.read_bytes,
        columns.write_bytes@[i] == s.metrics.write_bytes,
        columns.provenance@[i]@ == s.metrics.provenance@,
{
    wrapping_round_trips(s.ledger_sequence, 0);
}

/// In the columns of a batch each snapshot stands at its own place, every field in the column of its
/// name, and all of them under the network of the batch.
pub proof fn snapshot_columns_hold_the_fields(
    columns: SnapshotColumns<'_>,
    s: StorageSnapshotRow<'_>,
    network: Seq<char>,
    i: int,
)
    requires
        columns.row(i) == snapshot_row(s, network),
    ensures
        columns.contract_ids@[i]@ == s.contract_id@,
        columns.networks@[i]@ == network,
        columns.storage_keys@[i]@ == s.storage_key@,
        columns.key_jsons@[i]@ == s.key_json@,
        columns.value_jsons@[i] is Some <==> s.value_json is Some,
        s.value_json is Some ==> columns.value_jsons@[i]->0@ == s.value_json->0@,
        wrapped_u64(columns.ledger_sequences@[i]) == s.ledger_sequence,
{
    wrapping_round_trips(s.ledger_sequence, 0);
}

/// The times of a batch are those of its rows, in their order; there are none where a text is no
/// time, and then the error is that of the first such text.
pub proof fn times_go_with_their_texts(texts: Seq<Seq<char>>)
    ensures
        match times_of(texts) {
            Ok(times) => times.len() == texts.len() && forall|i: int|
                0 <= i < texts.len() ==> timestamp_read(#[trigger] texts[i]) == Ok::<
                    Timestamp,
                    Seq<char>,
                >(times[i]),
            Err(e) => exists|i: int|
                0 <= i < texts.len() && timestamp_read(#[trigger] texts[i]) is Err && e
                    == "ledger timestamp parse"@ + ": "@ + timestamp_read(texts[i])->Err_0
                    && forall|k: int| 0 <= k < i ==> timestamp_read(#[trigger] texts[k]) is Ok,
        },
    decreases texts.len(),
{
    if texts.len() > 0 {
        let rest = texts.drop_last();
        let n = texts.len() - 1;
        times_go_with_their_texts(rest);
        assert(texts.last() == texts[n]);
        match times_of(rest) {
            Err(e) => {
                let i = choose|i: int|
                    0 <= i < rest.len() && timestamp_read(#[trigger] rest[i]) is Err && e
                        == "ledger timestamp parse"@ + ": "@ + timestamp_read(rest[i])->Err_0
                        && forall|k: int| 0 <= k < i ==> timestamp_read(#[trigger] rest[k]) is Ok;
                assert(texts[i] == rest[i]);
                assert forall|k: int| 0 <= k < i implies timestamp_read(
                    #[trigger] texts[k],
                ) is Ok by {
                    assert(texts[k] == rest[k]);
                }
            },
            Ok(times) => {
                assert forall|k: int| 0 <= k < n implies timestamp_read(#[trigger] texts[k]) == Ok::<
                    Timestamp,
                    Seq<char>,
                >(times[k]) by {
                    assert(texts[k] == rest[k]);
                }
            },
        }
    }
}

/// The times of the rows are read from when their ledgers closed.
pub proof fn batch_times_are_those_of_the_ledgers(
    events: Seq<SorobanEvent>,
    tokens: Seq<TokenProjection<'_>>,
    metrics: Seq<InvocationMetricRow<'_>>,
    i: int,
)
    ensures
        event_times(events).len() == events.len(),
        token_times(tokens).len() == tokens.len(),
        metric_times(metrics).len() == metrics.len(),
        0 <= i < events.len() ==> event_times(events)[i] == events[i].ledger_timestamp@,
        0 <= i < tokens.len() ==> token_times(tokens)[i] == tokens[i].event.ledger_timestamp@,
        0 <= i < metrics.len() ==> metric_times(metrics)[i] == metrics[i].ledger_timestamp@,
{
}

} // verus!
