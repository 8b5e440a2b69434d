//! The requests that are sent to the RPC.
use vstd::prelude::*;

use crate::indexer::rpc::filters::filter_json;
use crate::indexer::rpc::filters::EventFilter;
use crate::indexer::rpc::filters::FilterView;
use crate::json::json_of_texts;
use crate::json::json_views;
use crate::json::member_of;
use crate::json::push_item;
use crate::json::put_number;
use crate::json::put_text;
use crate::json::set_member;
use crate::json::texts_json;
use crate::json::Json;
use crate::json::JsonMember;
use crate::json::JsonView;
use crate::text::views;

verus! {

broadcast use vstd::string::group_string_axioms;

/// A call of a method.
pub open spec fn call_json(id: u64, method: Seq<char>, params: JsonView) -> JsonView {
    JsonView::Object(
        Map::<Seq<char>, JsonView>::empty().insert("jsonrpc"@, JsonView::String("2.0"@)).insert(
            "id"@,
            JsonView::Number(id as int),
        ).insert("method"@, JsonView::String(method)).insert("params"@, params),
    )
}

/// A call of a method.
pub fn call_request(id: u64, method: &str, params: Json) -> (r: Json)
    ensures
        r@ == call_json(id, method@, params@),
{
    let mut m: Vec<JsonMember> = Vec::new();
    put_text(&mut m, "jsonrpc", "2.0");
    put_number(&mut m, "id", id as i128);
    put_text(&mut m, "method", method);
    set_member(&mut m, "params".to_owned(), params);
    Json::Object(m)
}

/// Where a page starts and how long it may be: a place that is not given is left out.
pub open spec fn pagination_json(limit: u32, cursor: Option<Seq<char>>) -> JsonView {
    let limited = Map::<Seq<char>, JsonView>::empty().insert(
        "limit"@,
        JsonView::Number(limit as int),
    );
    JsonView::Object(
        match cursor {
            Some(c) => limited.insert("cursor"@, JsonView::String(c)),
            None => limited,
        },
    )
}

fn pagination(limit: u32, cursor: Option<&str>) -> (r: Json)
    ensures
        r@ == pagination_json(
            limit,
            match cursor {
                Some(c) => Some(c@),
                None => None,
            },
        ),
{
    let mut m: Vec<JsonMember> = Vec::new();
    put_number(&mut m, "limit", limit as i128);
    if let Some(c) = cursor {
        put_text(&mut m, "cursor", c);
    }
    Json::Object(m)
}

/// The parameters of a request for a page of events. The filters are always sent, even where
/// there are none; a ledger to start from only where it is given.
pub open spec fn events_params_json(
    start_ledger: Option<u64>,
    cursor: Option<Seq<char>>,
    limit: u32,
    filters: Seq<FilterView>,
) -> JsonView {
    let fixed = Map::<Seq<char>, JsonView>::empty().insert(
        "filters"@,
        JsonView::Array(filters.map_values(|f: FilterView| filter_json(f))),
    ).insert("pagination"@, pagination_json(limit, cursor));
    JsonView::Object(
        match start_ledger {
            Some(ledger) => fixed.insert("startLedger"@, JsonView::Number(ledger as int)),
            None => fixed,
        },
    )
}

/// A request for a page of events.
pub fn events_request(
    start_ledger: Option<u64>,
    cursor: Option<&str>,
    limit: u32,
    filters: &[EventFilter],
) -> (r: Json)
    ensures
        r@ == call_json(
            1,
            "getEvents"@,
            events_params_json(
                start_ledger,
                match cursor {
                    Some(c) => Some(c@),
                    None => None,
                },
                limit,
                filters@.map_values(|f: EventFilter| f@),
            ),
        ),
{
    let ghost all = filters@.map_values(|f: EventFilter| f@).map_values(
        |f: FilterView| filter_json(f),
    );
    let mut list: Vec<Json> = Vec::new();
    let mut i: usize = 0;
    assert(json_views(list@) =~= all.take(0));
    while i < filters.len()
        invariant
            i <= filters.len(),
            all == filters@.map_values(|f: EventFilter| f@).map_values(
                |f: FilterView| filter_json(f),
            ),
            json_views(list@) == all.take(i as int),
        decreases filters.len() - i,
    {
        push_item(&mut list, filters[i].to_json());
        assert(all.take(i + 1) =~= all.take(i as int).push(all[i as int]));
        i = i + 1;
    }
    assert(all.take(i as int) =~= all);
    let mut m: Vec<JsonMember> = Vec::new();
    set_member(&mut m, "filters".to_owned(), Json::Array(list));
    set_member(&mut m, "pagination".to_owned(), pagination(limit, cursor));
    if let Some(ledger) = start_ledger {
        put_number(&mut m, "startLedger", ledger as i128);
    }
    call_request(1, "getEvents", Json::Object(m))
}

/// The parameters of a request for one ledger.
pub open spec fn ledger_params_json(sequence: u64) -> JsonView {
    JsonView::Object(
        Map::<Seq<char>, JsonView>::empty().insert(
            "startLedger"@,
            JsonView::Number(sequence as int),
        ).insert("pagination"@, pagination_json(1, None)),
    )
}

/// A request for one ledger.
pub fn ledger_request(sequence: u64) -> (r: Json)
    ensures
        r@ == call_json(2, "getLedgers"@, ledger_params_json(sequence)),
{
    let mut m: Vec<JsonMember> = Vec::new();
    put_number(&mut m, "startLedger", sequence as i128);
    set_member(&mut m, "pagination".to_owned(), pagination(1, None));
    call_request(2, "getLedgers", Json::Object(m))
}

/// The parameters of a request that takes one text.
pub open spec fn text_params_json(name: Seq<char>, value: Seq<char>) -> JsonView {
    JsonView::Object(
        Map::<Seq<char>, JsonView>::empty().insert(name, JsonView::String(value)),
    )
}

/// A request for a transaction.
pub fn transaction_request(hash: &str) -> (r: Json)
    ensures
        r@ == call_json(3, "getTransaction"@, text_params_json("hash"@, hash@)),
{
    let mut m: Vec<JsonMember> = Vec::new();
    put_text(&mut m, "hash", hash);
    call_request(3, "getTransaction", Json::Object(m))
}

/// A request to simulate a transaction.
pub fn simulation_request(envelope_xdr: &str) -> (r: Json)
    ensures
        r@ == call_json(
            6,
            "simulateTransaction"@,
            text_params_json("transaction"@, envelope_xdr@),
        ),
{
    let mut m: Vec<JsonMember> = Vec::new();
    put_text(&mut m, "transaction", envelope_xdr);
    call_request(6, "simulateTransaction", Json::Object(m))
}

/// A request for entries of the ledger; without keys there is none to send.
pub fn entries_request(keys: &[String]) -> (r: Option<Json>)
    ensures
        match r {
            Some(json) => keys@.len() > 0 && json@ == call_json(
                5,
                "getLedgerEntries"@,
                JsonView::Object(
                    Map::<Seq<char>, JsonView>::empty().insert("keys"@, texts_json(views(keys@))),
                ),
            ),
            None => keys@.len() == 0,
        },
{
    if keys.len() == 0 {
        return None;
    }
    let mut m: Vec<JsonMember> = Vec::new();
    set_member(&mut m, "keys".to_owned(), json_of_texts(keys));
    Some(call_request(5, "getLedgerEntries", Json::Object(m)))
}

/// Every request is a JSON-RPC 2.0 call with its number, its method and its parameters.
pub proof fn calls_name_method_and_parameters(id: u64, method: Seq<char>, params: JsonView)
    ensures
        ({
            let call = call_json(id, method, params);
            &&& member_of(call, "jsonrpc"@) == Some(JsonView::String("2.0"@))
            &&& member_of(call, "id"@) == Some(JsonView::Number(id as int))
            &&& member_of(call, "method"@) == Some(JsonView::String(method))
            &&& member_of(call, "params"@) == Some(params)
            &&& call->Object_0.dom() == set!["jsonrpc"@, "id"@, "method"@, "params"@]
        }),
{
    reveal_strlit("jsonrpc");
    reveal_strlit("id");
    reveal_strlit("method");
    reveal_strlit("params");
    assert("method"@[0] == 'm' && "params"@[0] == 'p');
    assert("id"@.len() == 2 && "jsonrpc"@.len() == 7 && "method"@.len() == 6);
    assert(call_json(id, method, params)->Object_0.dom() =~= set![
        "jsonrpc"@,
        "id"@,
        "method"@,
        "params"@,
    ]);
}

/// A request for events carries all its filters in order, the limit, and the ledger to start from and
/// the cursor exactly where they are given.
pub proof fn event_requests_carry_what_is_asked(
    start_ledger: Option<u64>,
    cursor: Option<Seq<char>>,
    limit: u32,
    filters: Seq<FilterView>,
)
    ensures
        ({
            let params = events_params_json(start_ledger, cursor, limit, filters);
            let page = member_of(params, "pagination"@)->0;
            &&& member_of(params, "filters"@) is Some
            &&& member_of(params, "filters"@)->0 is Array
            &&& member_of(params, "filters"@)->0->Array_0.len() == filters.len()
            &&& forall|i: int|
                0 <= i < filters.len() ==> #[trigger] member_of(params, "filters"@)->0->Array_0[i]
                    == filter_json(filters[i])
            &&& member_of(params, "startLedger"@) == match start_ledger {
                Some(n) => Some(JsonView::Number(n as int)),
                None => None,
            }
            &&& member_of(params, "pagination"@) is Some
            &&& member_of(page, "limit"@) == Some(JsonView::Number(limit as int))
            &&& member_of(page, "cursor"@) == match cursor {
                Some(c) => Some(JsonView::String(c)),
                None => None,
            }
        }),
{
    reveal_strlit("filters");
    reveal_strlit("pagination");
    reveal_strlit("startLedger");
    reveal_strlit("limit");
    reveal_strlit("cursor");
    assert("filters"@.len() == 7 && "pagination"@.len() == 10 && "startLedger"@.len() == 11);
    assert("limit"@.len() == 5 && "cursor"@.len() == 6);
}

/// A request for a ledger starts at it and asks for no more than it; one that takes a text carries it
/// under its name and nothing else.
pub proof fn other_requests_carry_their_subject(sequence: u64, name: Seq<char>, value: Seq<char>)
    ensures
        ({
            let params = ledger_params_json(sequence);
            &&& member_of(params, "startLedger"@) == Some(JsonView::Number(sequence as int))
            &&& member_of(params, "pagination"@) == Some(
                JsonView::Object(
                    Map::<Seq<char>, JsonView>::empty().insert("limit"@, JsonView::Number(1)),
                ),
            )
        }),
        text_params_json(name, value) == JsonView::Object(
            Map::<Seq<char>, JsonView>::empty().insert(name, JsonView::String(value)),
        ),
{
    reveal_strlit("pagination");
    reveal_strlit("startLedger");
    assert("pagination"@.len() == 10 && "startLedger"@.len() == 11);
}

} // verus!
