//! Requests for stored events: what they may ask for, and what they are answered.
use vstd::prelude::*;

use crate::ids::event_id;
use crate::ids::read_uuid;
use crate::ids::uuid_read;
use crate::ids::uuid_text;
use crate::ids::write_uuid;
use crate::indexer::db::columns::EventRow as StoredRow;
use crate::indexer::db::columns::event_row;
use crate::json::json_views;
use crate::json::Json;
use crate::json::JsonView;
use crate::text::views;
use crate::timestamp::rfc3339;
use crate::timestamp::time_text;
use crate::timestamp::Timestamp;
use crate::types::SorobanEvent;
use crate::wide::wrap_i64;
use crate::wide::wrap_u32;
use crate::wide::wrap_u64;
use crate::wide::wrapped_i64;
use crate::wide::wrapped_u32;
use crate::wide::wrapped_u64;
use crate::wide::wrapping_round_trips;

verus! {

broadcast use vstd::string::group_string_axioms;

/// The network of a request that names none.
pub const DEFAULT_NETWORK: &'static str = "testnet";

/// The most events of an answer.
pub const MAX_LIMIT: u32 = 200;

/// Why a request is refused.
#[derive(Debug, Clone, Copy, PartialEq, Eq, Structural)]
pub enum Code {
    InvalidArgument,
    NotFound,
    Unavailable,
}

/// The refusal of a request.
#[derive(Debug)]
pub struct Status {
    pub code: Code,
    pub message: String,
}

/// The refusal of a request.
pub struct StatusView {
    pub code: Code,
    pub message: Seq<char>,
}

impl View for Status {
    type V = StatusView;

    open spec fn view(&self) -> StatusView {
        StatusView { code: self.code, message: self.message@ }
    }
}

/// The refusal of a request that asks for what cannot be.
pub open spec fn invalid(message: Seq<char>) -> StatusView {
    StatusView { code: Code::InvalidArgument, message }
}

impl Status {
    /// The refusal of a request that asks for what cannot be.
    pub fn invalid_argument(message: &str) -> (r: Self)
        ensures
            r@ == invalid(message@),
    {
        Status { code: Code::InvalidArgument, message: message.to_owned() }
    }

    /// The answer where the database does not answer. It tells nothing of the cause.
    pub fn unavailable() -> (r: Self)
        ensures
            r@ == (StatusView {
                code: Code::Unavailable,
                message: "database temporarily unavailable"@,
            }),
    {
        Status { code: Code::Unavailable, message: "database temporarily unavailable".to_owned() }
    }
}

/// A request for a page of events.
#[derive(Debug)]
pub struct ListEventsRequest {
    pub contract_id: String,
    pub topic_0: String,
    pub topic_1: String,
    pub network: String,
    pub ledger_from: u64,
    pub ledger_to: u64,
    pub limit: u32,
    /// The id of the last event of the page before, or nothing.
    pub cursor: String,
}

/// A request for an event.
#[derive(Debug)]
pub struct GetEventRequest {
    pub id: String,
    pub network: String,
}

/// The number of bytes of a text.
pub open spec fn byte_count(s: Seq<char>) -> nat {
    vstd::utf8::encode_utf8(s).len()
}

/// Why a request for a page is refused, if it is: the first field that is too long.
pub open spec fn list_fault(req: ListEventsRequest) -> Option<Seq<char>> {
    if byte_count(req.contract_id@) > 256 {
        Some("contract_id must be at most 256 characters"@)
    } else if byte_count(req.topic_0@) > 128 {
        Some("topic_0 must be at most 128 characters"@)
    } else if byte_count(req.topic_1@) > 128 {
        Some("topic_1 must be at most 128 characters"@)
    } else if byte_count(req.network@) > 64 {
        Some("network must be at most 64 characters"@)
    } else {
        None
    }
}

/// Checks a request for a page.
pub fn validate_list_events(req: &ListEventsRequest) -> (r: Result<(), Status>)
    ensures
        match r {
            Ok(_) => list_fault(*req) is None,
            Err(e) => list_fault(*req) is Some && e@ == invalid(list_fault(*req)->0),
        },
{
    if req.contract_id.as_str().as_bytes().len() > 256 {
        return Err(Status::invalid_argument("contract_id must be at most 256 characters"));
    }
    if req.topic_0.as_str().as_bytes().len() > 128 {
        return Err(Status::invalid_argument("topic_0 must be at most 128 characters"));
    }
    if req.topic_1.as_str().as_bytes().len() > 128 {
        return Err(Status::invalid_argument("topic_1 must be at most 128 characters"));
    }
    if req.network.as_str().as_bytes().len() > 64 {
        return Err(Status::invalid_argument("network must be at most 64 characters"));
    }
    Ok(())
}

/// Why a request for an event is refused, if it is.
pub open spec fn get_fault(req: GetEventRequest) -> Option<Seq<char>> {
    if req.id@.len() == 0 {
        Some("id is required"@)
    } else if byte_count(req.network@) > 64 {
        Some("network must be at most 64 characters"@)
    } else {
        None
    }
}

/// Checks a request for an event.
pub fn validate_get_event(req: &GetEventRequest) -> (r: Result<(), Status>)
    ensures
        match r {
            Ok(_) => get_fault(*req) is None,
            Err(e) => get_fault(*req) is Some && e@ == invalid(get_fault(*req)->0),
        },
{
    if req.id.as_str().is_empty() {
        return Err(Status::invalid_argument("id is required"));
    }
    if req.network.as_str().as_bytes().len() > 64 {
        return Err(Status::invalid_argument("network must be at most 64 characters"));
    }
    Ok(())
}

/// The network that a request means.
pub open spec fn network_of(network: Seq<char>) -> Seq<char> {
    if network.len() == 0 {
        "testnet"@
    } else {
        network
    }
}

/// The network that a request means.
pub fn resolve_network(network: &str) -> (r: &str)
    ensures
        r@ == network_of(network@),
{
    if network.is_empty() {
        "testnet"
    } else {
        network
    }
}

/// The events that an answer may hold: as many as asked for, one at least and two hundred at most.
pub open spec fn effective_limit(limit: u32) -> i64 {
    if limit < 1 {
        1
    } else if limit > 200 {
        200
    } else {
        limit as i64
    }
}

/// What a request for a page comes to.
#[derive(Debug)]
pub struct ListPlan {
    pub network: String,
    pub ledger_from: i64,
    pub ledger_to: i64,
    pub limit: i64,
    /// The id of the event behind which the page starts.
    pub cursor: Option<[u8; 16]>,
}

/// What a request for a page comes to, or why it is refused.
pub open spec fn list_plan_fault(req: ListEventsRequest) -> Option<Seq<char>> {
    match list_fault(req) {
        Some(fault) => Some(fault),
        None => if req.cursor@.len() > 0 && uuid_read(req.cursor@) is None {
            Some("cursor must be a valid UUID"@)
        } else {
            None
        },
    }
}

/// Works out what a request for a page comes to.
pub fn plan_list(req: &ListEventsRequest) -> (r: Result<ListPlan, Status>)
    ensures
        match r {
            Ok(plan) => {
                &&& list_plan_fault(*req) is None
                &&& plan.network@ == network_of(req.network@)
                &&& plan.ledger_from == wrapped_i64(req.ledger_from)
                &&& plan.ledger_to == wrapped_i64(req.ledger_to)
                &&& plan.limit == effective_limit(req.limit)
                &&& match plan.cursor {
                    Some(id) => req.cursor@.len() > 0 && uuid_read(req.cursor@) == Some(id@),
                    None => req.cursor@.len() == 0,
                }
            },
            Err(e) => list_plan_fault(*req) is Some && e@ == invalid(list_plan_fault(*req)->0),
        },
{
    if let Err(e) = validate_list_events(req) {
        return Err(e);
    }
    let cursor = if req.cursor.as_str().is_empty() {
        None
    } else {
        match read_uuid(req.cursor.as_str()) {
            Some(id) => Some(id),
            None => return Err(Status::invalid_argument("cursor must be a valid UUID")),
        }
    };
    let limit: i64 = if req.limit < 1 {
        1
    } else if req.limit > MAX_LIMIT {
        200
    } else {
        req.limit as i64
    };
    Ok(
        ListPlan {
            network: resolve_network(req.network.as_str()).to_owned(),
            ledger_from: wrap_i64(req.ledger_from),
            ledger_to: wrap_i64(req.ledger_to),
            limit,
            cursor,
        },
    )
}

/// The position behind which a page starts, by what was found under the cursor.
pub fn cursor_position(found: Option<(i64, i32)>) -> (r: Result<(i64, i32), Status>)
    ensures
        match r {
            Ok(position) => found == Some(position),
            Err(e) => found is None && e@ == invalid("cursor references unknown event"@),
        },
{
    match found {
        Some(position) => Ok(position),
        None => Err(Status::invalid_argument("cursor references unknown event")),
    }
}

/// A row of the events table. The body is JSON text.
#[derive(Debug)]
pub struct EventRow {
    pub id: [u8; 16],
    pub contract_id: String,
    pub ledger_sequence: i64,
    pub ledger_timestamp: Timestamp,
    pub transaction_hash: String,
    pub event_index: i32,
    pub event_type: String,
    pub topics: Json,
    pub data: String,
    pub created_at: Timestamp,
}

/// An event as it is answered.
#[derive(Debug)]
pub struct Event {
    pub id: String,
    pub contract_id: String,
    pub ledger_sequence: u64,
    pub ledger_timestamp: String,
    pub transaction_hash: String,
    pub event_index: u32,
    pub event_type: String,
    pub topics: Vec<String>,
    pub data: String,
    pub created_at: String,
}

/// An event as it is answered.
pub struct EventAnswer {
    pub id: Seq<char>,
    pub contract_id: Seq<char>,
    pub ledger_sequence: u64,
    pub ledger_timestamp: Seq<char>,
    pub transaction_hash: Seq<char>,
    pub event_index: u32,
    pub event_type: Seq<char>,
    pub topics: Seq<Seq<char>>,
    pub data: Seq<char>,
    pub created_at: Seq<char>,
}

impl View for Event {
    type V = EventAnswer;

    open spec fn view(&self) -> EventAnswer {
        EventAnswer {
            id: self.id@,
            contract_id: self.contract_id@,
            ledger_sequence: self.ledger_sequence,
            ledger_timestamp: self.ledger_timestamp@,
            transaction_hash: self.transaction_hash@,
            event_index: self.event_index,
            event_type: self.event_type@,
            topics: views(self.topics@),
            data: self.data@,
            created_at: self.created_at@,
        }
    }
}

/// Whether a value is an array of strings.
pub open spec fn are_strings(json: JsonView) -> bool {
    json is Array && forall|i: int|
        0 <= i < json->Array_0.len() ==> (#[trigger] json->Array_0[i]) is String
}

/// The strings of an array of strings; anything else has none.
pub open spec fn strings_of(json: JsonView) -> Seq<Seq<char>> {
    if are_strings(json) {
        Seq::new(json->Array_0.len(), |i: int| json->Array_0[i]->String_0)
    } else {
        Seq::empty()
    }
}

proof fn lemma_json_views(items: Seq<Json>)
    ensures
        json_views(items).len() == items.len(),
        forall|i: int| 0 <= i < items.len() ==> #[trigger] json_views(items)[i] == items[i]@,
    decreases items.len(),
{
    if items.len() > 0 {
        lemma_json_views(items.drop_last());
        assert forall|i: int| 0 <= i < items.len() implies #[trigger] json_views(items)[i]
            == items[i]@ by {
            if i < items.len() - 1 {
                assert(items.drop_last()[i] == items[i]);
            }
        }
    }
}

/// The strings of an array of strings; anything else has none.
pub fn json_texts(json: &Json) -> (r: Vec<String>)
    ensures
        views(r@) == strings_of(json@),
{
    let mut out: Vec<String> = Vec::new();
    assert(views(out@) =~= Seq::<Seq<char>>::empty());
    if let Json::Array(items) = json {
        let mut i: usize = 0;
        proof {
            lemma_json_views(items@);
        }
        while i < items.len()
            invariant
                i <= items.len(),
                json@ == JsonView::Array(json_views(items@)),
                json_views(items@).len() == items@.len(),
                forall|k: int|
                    0 <= k < items@.len() ==> #[trigger] json_views(items@)[k] == items@[k]@,
                out@.len() == i,
                forall|k: int|
                    0 <= k < i ==> json_views(items@)[k] == JsonView::String(
                        (#[trigger] out@[k])@,
                    ),
            decreases items.len() - i,
        {
            assert(json_views(items@)[i as int] == items@[i as int]@);
            match &items[i] {
                Json::String(s) => {
                    out.push(s.clone());
                },
                _ => {
                    assert(!are_strings(json@)) by {
                        assert(!(json@->Array_0[i as int] is String));
                    }
                    let none: Vec<String> = Vec::new();
                    assert(views(none@) =~= Seq::<Seq<char>>::empty());
                    return none;
                },
            }
            i = i + 1;
        }
        assert(are_strings(json@)) by {
            assert forall|k: int| 0 <= k < json@->Array_0.len() implies (
            #[trigger] json@->Array_0[k]) is String by {
                assert(json_views(items@)[k] == JsonView::String(out@[k]@));
            }
        }
        assert(views(out@) =~= strings_of(json@));
    }
    out
}

/// The event that a row stands for. There is none for a row with a time that cannot be written.
pub open spec fn event_of(row: EventRow) -> Option<EventAnswer> {
    if rfc3339(row.ledger_timestamp) is Some && rfc3339(row.created_at) is Some {
        Some(
            EventAnswer {
                id: uuid_text(row.id@),
                contract_id: row.contract_id@,
                ledger_sequence: wrapped_u64(row.ledger_sequence) as u64,
                ledger_timestamp: rfc3339(row.ledger_timestamp)->0,
                transaction_hash: row.transaction_hash@,
                event_index: wrapped_u32(row.event_index) as u32,
                event_type: row.event_type@,
                topics: strings_of(row.topics@),
                data: row.data@,
                created_at: rfc3339(row.created_at)->0,
            },
        )
    } else {
        None
    }
}

/// The event that a row stands for.
pub fn row_to_event(row: EventRow) -> (r: Option<Event>)
    ensures
        match r {
            Some(event) => event_of(row) == Some(event@),
            None => event_of(row) is None,
        },
{
    let ledger_timestamp = match time_text(row.ledger_timestamp) {
        Some(text) => text,
        None => return None,
    };
    let created_at = match time_text(row.created_at) {
        Some(text) => text,
        None => return None,
    };
    Some(
        Event {
            id: write_uuid(row.id),
            contract_id: row.contract_id,
            ledger_sequence: wrap_u64(row.ledger_sequence),
            ledger_timestamp,
            transaction_hash: row.transaction_hash,
            event_index: wrap_u32(row.event_index),
            event_type: row.event_type,
            topics: json_texts(&row.topics),
            data: row.data,
            created_at,
        },
    )
}

/// A page of events.
#[derive(Debug)]
pub struct ListEventsResponse {
    pub events: Vec<Event>,
    pub next_cursor: String,
    pub has_more: bool,
}

/// Whether a page may be followed by another: it is full.
pub open spec fn may_have_more(rows: nat, limit: i64) -> bool {
    rows as int == limit
}

/// The cursor behind a page: the id of its last event where another page may follow.
pub open spec fn cursor_behind(rows: Seq<EventRow>, limit: i64) -> Seq<char> {
    if may_have_more(rows.len(), limit) && rows.len() > 0 {
        uuid_text(rows.last().id@)
    } else {
        Seq::empty()
    }
}

/// The page that the rows make up. There is none where a row has a time that cannot be written.
pub fn list_response(rows: Vec<EventRow>, limit: i64) -> (r: Option<ListEventsResponse>)
    ensures
        match r {
            Some(page) => {
                &&& page.events@.len() == rows@.len()
                &&& forall|i: int|
                    0 <= i < rows@.len() ==> event_of(rows@[i]) == Some((#[trigger] page.events@[i])@)
                &&& page.has_more == may_have_more(rows@.len(), limit)
                &&& page.next_cursor@ == cursor_behind(rows@, limit)
            },
            None => exists|i: int| 0 <= i < rows@.len() && event_of(#[trigger] rows@[i]) is None,
        },
{
    let n: usize = rows.len();
    let has_more = limit >= 0 && n as u64 == limit as u64;
    let mut next_cursor = "".to_owned();
    proof {
        reveal_strlit("");
        assert(next_cursor@ =~= Seq::<char>::empty());
    }
    if has_more && n > 0 {
        next_cursor = write_uuid(rows[n - 1].id);
    }
    let mut events: Vec<Event> = Vec::new();
    for row in it: rows
        invariant
            it.seq() == rows@,
            events@.len() == it.index(),
            forall|k: int|
                0 <= k < events@.len() ==> event_of(rows@[k]) == Some((#[trigger] events@[k])@),
    {
        let ghost k = events@.len() as int;
        assert(row == rows@[k]);
        match row_to_event(row) {
            Some(event) => {
                events.push(event);
            },
            None => {
                assert(event_of(rows@[k]) is None);
                return None;
            },
        }
    }
    Some(ListEventsResponse { events, next_cursor, has_more })
}

/// A full page leads on to the event behind its last one, and a page that is not full is the last:
/// paging ends there.
pub proof fn paging_resumes_behind_the_last_event(rows: Seq<EventRow>, limit: u32)
    requires
        rows.len() <= effective_limit(limit),
    ensures
        1 <= effective_limit(limit) <= 200,
        rows.len() < effective_limit(limit) ==> cursor_behind(rows, effective_limit(limit))
            == Seq::<char>::empty() && !may_have_more(rows.len(), effective_limit(limit)),
        rows.len() == effective_limit(limit) ==> cursor_behind(rows, effective_limit(limit))
            == uuid_text(rows.last().id@),
{
}

/// What a request for an event comes to, or why it is refused.
pub open spec fn get_plan_fault(req: GetEventRequest) -> Option<Seq<char>> {
    match get_fault(req) {
        Some(fault) => Some(fault),
        None => if uuid_read(req.id@) is None {
            Some("id must be a valid UUID"@)
        } else {
            None
        },
    }
}

/// Works out which event of which network a request asks for.
pub fn plan_get(req: &GetEventRequest) -> (r: Result<([u8; 16], String), Status>)
    ensures
        match r {
            Ok((id, network)) => get_plan_fault(*req) is None && uuid_read(req.id@) == Some(id@)
                && network@ == network_of(req.network@),
            Err(e) => get_plan_fault(*req) is Some && e@ == invalid(get_plan_fault(*req)->0),
        },
{
    if let Err(e) = validate_get_event(req) {
        return Err(e);
    }
    match read_uuid(req.id.as_str()) {
        Some(id) => Ok((id, resolve_network(req.network.as_str()).to_owned())),
        None => Err(Status::invalid_argument("id must be a valid UUID")),
    }
}

/// The answer where no event has the id that was asked for.
pub fn event_not_found(id: [u8; 16]) -> (r: Status)
    ensures
        r@ == (StatusView {
            code: Code::NotFound,
            message: "event "@ + uuid_text(id@) + " not found"@,
        }),
{
    let mut message = "event ".to_owned();
    message.append(write_uuid(id).as_str());
    message.append(" not found");
    Status { code: Code::NotFound, message }
}

/// An answered event carries the columns of its row under their own names: the texts as they are, the
/// numbers with the same bits, the times as text, and the topics where they are an array of texts.
pub proof fn answers_carry_the_columns_of_their_row(row: EventRow, event: EventAnswer)
    requires
        event_of(row) == Some(event),
    ensures
        event.id == uuid_text(row.id@),
        event.contract_id == row.contract_id@,
        event.transaction_hash == row.transaction_hash@,
        event.event_type == row.event_type@,
        event.data == row.data@,
        rfc3339(row.ledger_timestamp) == Some(event.ledger_timestamp),
        rfc3339(row.created_at) == Some(event.created_at),
        row.ledger_sequence >= 0 ==> event.ledger_sequence == row.ledger_sequence,
        row.event_index >= 0 ==> event.event_index == row.event_index,
        row.topics@ matches JsonView::Array(items) ==> (forall|i: int|
            0 <= i < items.len() ==> (#[trigger] items[i]) is String) ==> event.topics.len()
            == items.len() && forall|i: int|
            0 <= i < items.len() ==> #[trigger] items[i] == JsonView::String(event.topics[i]),
{
    if let JsonView::Array(items) = row.topics@ {
        if forall|i: int| 0 <= i < items.len() ==> (#[trigger] items[i]) is String {
            assert(are_strings(row.topics@));
        }
    }
}

/// What an answered event shows is what its fields hold.
pub proof fn answers_show_their_fields(event: Event)
    ensures
        event@.id == event.id@,
        event@.contract_id == event.contract_id@,
        event@.ledger_sequence == event.ledger_sequence,
        event@.ledger_timestamp == event.ledger_timestamp@,
        event@.transaction_hash == event.transaction_hash@,
        event@.event_index == event.event_index,
        event@.event_type == event.event_type@,
        event@.topics.len() == event.topics@.len(),
        forall|i: int|
            0 <= i < event.topics@.len() ==> #[trigger] event@.topics[i] == event.topics@[i]@,
        event@.data == event.data@,
        event@.created_at == event.created_at@,
{
}

/// Whether a row that is read holds what a row that was written holds, column by column.
pub open spec fn reads_back(written: StoredRow, row: EventRow) -> bool {
    &&& row.id@ == written.id
    &&& row.contract_id@ == written.contract_id
    &&& row.ledger_sequence == written.ledger_sequence
    &&& row.ledger_timestamp == written.ledger_timestamp
    &&& row.transaction_hash@ == written.transaction_hash
    &&& row.event_index == written.event_index
    &&& row.event_type@ == written.event_type
    &&& row.topics@ == written.topics
}

/// An event that was stored and is queried comes back as it was: its contract, transaction, kind,
/// ledger, position and topics, under the id that follows from them.
pub proof fn stored_events_come_back(
    event: SorobanEvent,
    time: Timestamp,
    row: EventRow,
    answer: EventAnswer,
)
    requires
        reads_back(event_row(event, time), row),
        event_of(row) == Some(answer),
    ensures
        answer.contract_id == event.contract_id@,
        answer.transaction_hash == event.transaction_hash@,
        answer.event_type == event.event_type.name(),
        answer.ledger_sequence == event.ledger_sequence,
        answer.event_index == event.event_index,
        answer.topics == views(event.topics@),
        rfc3339(time) == Some(answer.ledger_timestamp),
        answer.id == uuid_text(
            event_id(event.contract_id@, event.ledger_sequence as nat, event.event_index as nat),
        ),
{
    let topics = views(event.topics@);
    let items = topics.map_values(|t: Seq<char>| JsonView::String(t));
    assert(row.topics@ == JsonView::Array(items));
    assert(are_strings(row.topics@));
    assert(answer.topics =~= topics);
    wrapping_round_trips(event.ledger_sequence, event.event_index);
}

/// A request for a page is refused exactly where a text of it is too long: 256 bytes for the
/// contract, 128 for each topic, 64 for the network.
pub proof fn long_texts_are_refused(req: ListEventsRequest)
    ensures
        list_fault(req) is None <==> {
            &&& vstd::utf8::encode_utf8(req.contract_id@).len() <= 256
            &&& vstd::utf8::encode_utf8(req.topic_0@).len() <= 128
            &&& vstd::utf8::encode_utf8(req.topic_1@).len() <= 128
            &&& vstd::utf8::encode_utf8(req.network@).len() <= 64
        },
        list_fault(req) is Some && vstd::utf8::encode_utf8(req.contract_id@).len() > 256
            ==> list_fault(req) == Some("contract_id must be at most 256 characters"@),
        vstd::utf8::encode_utf8(req.contract_id@).len() <= 256 && vstd::utf8::encode_utf8(
            req.topic_0@,
        ).len() > 128 ==> list_fault(req) == Some("topic_0 must be at most 128 characters"@),
        list_plan_fault(req) is None ==> list_fault(req) is None && (req.cursor@.len() == 0
            || uuid_read(req.cursor@) is Some),
        list_fault(req) is None && req.cursor@.len() > 0 && uuid_read(req.cursor@) is None
            ==> list_plan_fault(req) == Some("cursor must be a valid UUID"@),
{
}

/// A request for an event is refused exactly where it has no id, an id that is no UUID, or a network
/// of more than 64 bytes.
pub proof fn requests_for_an_event_need_an_id(req: GetEventRequest)
    ensures
        get_plan_fault(req) is None <==> {
            &&& req.id@.len() > 0
            &&& uuid_read(req.id@) is Some
            &&& vstd::utf8::encode_utf8(req.network@).len() <= 64
        },
{
}

/// The number of events that a request asks for is kept from one to two hundred, and what lies beyond
/// is cut; a request without a network means the test network, and any other its own.
pub proof fn limits_and_networks_are_kept(limit: u32, network: Seq<char>)
    ensures
        1 <= limit <= 200 ==> effective_limit(limit) == limit,
        limit > 200 ==> effective_limit(limit) == 200,
        limit == 0 ==> effective_limit(limit) == 1,
        network_of(Seq::empty()) == "testnet"@,
        network.len() > 0 ==> network_of(network) == network,
{
}

/// A page is planned as it was asked for: its own bounds each in its own place, its network, its
/// limit and its cursor. What is refused is refused as an invalid argument, for the first reason.
pub proof fn pages_are_planned_as_asked(req: ListEventsRequest, r: Result<ListPlan, Status>)
    requires
        call_ensures(plan_list, (&req,), r),
    ensures
        r matches Ok(plan) ==> {
            &&& req.network@.len() > 0 ==> plan.network@ == req.network@
            &&& req.network@.len() == 0 ==> plan.network@ == "testnet"@
            &&& wrapped_u64(plan.ledger_from) == req.ledger_from
            &&& wrapped_u64(plan.ledger_to) == req.ledger_to
            &&& 1 <= req.limit <= 200 ==> plan.limit == req.limit
            &&& req.limit > 200 ==> plan.limit == 200
            &&& req.limit == 0 ==> plan.limit == 1
            &&& req.cursor@.len() == 0 ==> plan.cursor is None
            &&& req.cursor@.len() > 0 ==> plan.cursor is Some && uuid_read(req.cursor@) == Some(
                plan.cursor->0@,
            )
        },
        r matches Err(e) ==> e.code == Code::InvalidArgument && Some(e.message@) == list_plan_fault(
            req,
        ),
        r is Ok <==> list_plan_fault(req) is None,
{
    wrapping_round_trips(req.ledger_from, 0);
    wrapping_round_trips(req.ledger_to, 0);
}

/// A request for an event leads to that event on its network.
pub proof fn events_are_looked_up_as_asked(
    req: GetEventRequest,
    r: Result<([u8; 16], String), Status>,
)
    requires
        call_ensures(plan_get, (&req,), r),
    ensures
        r matches Ok((id, network)) ==> {
            &&& uuid_read(req.id@) == Some(id@)
            &&& req.network@.len() > 0 ==> network@ == req.network@
            &&& req.network@.len() == 0 ==> network@ == "testnet"@
        },
        r matches Err(e) ==> e.code == Code::InvalidArgument,
        req.id@.len() == 0 ==> r is Err && r->Err_0.message@ == "id is required"@,
        req.id@.len() > 0 && vstd::utf8::encode_utf8(req.network@).len() > 64 ==> r is Err
            && r->Err_0.message@ == "network must be at most 64 characters"@,
        req.id@.len() > 0 && vstd::utf8::encode_utf8(req.network@).len() <= 64 && uuid_read(req.id@)
            is None ==> r is Err && r->Err_0.message@ == "id must be a valid UUID"@,
{
}

/// A page answers its rows in order, one event for each, and is followed by another just where it
/// is full: its cursor is then the id of the last row.
pub proof fn pages_answer_their_rows_in_order(
    rows: Vec<EventRow>,
    limit: i64,
    page: ListEventsResponse,
    i: int,
)
    requires
        call_ensures(list_response, (rows, limit), Some(page)),
    ensures
        page.events@.len() == rows@.len(),
        0 <= i < rows@.len() ==> page.events@[i].contract_id@ == rows@[i].contract_id@
            && page.events@[i].transaction_hash@ == rows@[i].transaction_hash@
            && page.events@[i].data@ == rows@[i].data@ && page.events@[i].id@ == uuid_text(
            rows@[i].id@,
        ),
        page.has_more <==> rows@.len() == limit,
        !page.has_more ==> page.next_cursor@.len() == 0,
        page.has_more && rows@.len() > 0 ==> page.next_cursor@ == uuid_text(rows@.last().id@),
{
    if 0 <= i < rows@.len() {
        assert(event_of(rows@[i]) == Some(page.events@[i]@));
    }
}

/// An array of texts is its texts, in order; an array with anything else in it, and what is no
/// array, has none.
pub proof fn topics_are_arrays_of_texts(json: JsonView, i: int)
    ensures
        !(json is Array) ==> strings_of(json).len() == 0,
        json is Array && 0 <= i < json->Array_0.len() && !(json->Array_0[i] is String)
            ==> strings_of(json).len() == 0,
        json is Array && (forall|k: int|
            0 <= k < json->Array_0.len() ==> (#[trigger] json->Array_0[k]) is String) && 0 <= i
            < json->Array_0.len() ==> strings_of(json).len() == json->Array_0.len()
            && JsonView::String(strings_of(json)[i]) == json->Array_0[i],
{
}

/// The event that is answered for a row has in each of its fields what the row has in the column of
/// that name.
pub proof fn rows_are_answered_field_by_field(row: EventRow, event: Event)
    requires
        call_ensures(row_to_event, (row,), Some(event)),
    ensures
        event.id@ == uuid_text(row.id@),
        event.contract_id@ == row.contract_id@,
        event.transaction_hash@ == row.transaction_hash@,
        event.event_type@ == row.event_type@,
        event.data@ == row.data@,
        rfc3339(row.ledger_timestamp) == Some(event.ledger_timestamp@),
        rfc3339(row.created_at) == Some(event.created_at@),
        wrapped_i64(event.ledger_sequence) == row.ledger_sequence,
        row.event_index >= 0 ==> event.event_index == row.event_index,
        views(event.topics@) == strings_of(row.topics@),
{
}

/// An empty page leads nowhere.
pub proof fn empty_pages_have_no_cursor(rows: Seq<EventRow>, limit: i64)
    requires
        rows.len() == 0,
    ensures
        cursor_behind(rows, limit).len() == 0,
{
}

} // verus!
