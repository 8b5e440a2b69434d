//! The stream of events to a subscriber: where it starts, and which entries it hands on.
use vstd::prelude::*;

use crate::api::events::invalid;
use crate::api::events::Event;
use crate::api::events::EventAnswer;
use crate::api::events::Status;
use crate::codec::json_strings;
use crate::codec::json_strings_read;
use crate::codec::read_strings;
use crate::codec::strict_text;
use crate::indexer::db::outbox::stream_entry;
use crate::settings::opt_str;
use crate::settings::positive_or;
use crate::settings::positive_usize;
use crate::text::all_digits;
use crate::text::char_views;
use crate::text::chars_of;
use crate::text::dec;
use crate::text::dec_parses_back;
use crate::text::is_digit;
use crate::text::join;
use crate::text::joined_texts_split_back;
use crate::text::joins_put_the_separator_between;
use crate::text::lemma_dec_value;
use crate::text::opt_view;
use crate::text::parse_bounded;
use crate::text::parse_u32;
use crate::text::parse_u64;
use crate::text::same;
use crate::text::split;
use crate::text::split_chars;
use crate::text::the_last_piece_stands_behind_the_last_separator;
use crate::types::EventView;

verus! {

broadcast use vstd::string::group_string_axioms;

/// The events that wait for a subscriber where nothing else is set.
pub const DEFAULT_STREAM_CHANNEL_BUF: usize = 128;

/// How long a read waits for entries, in milliseconds.
pub const XREAD_BLOCK_MS: usize = 5_000;

/// The most entries of a read.
pub const XREAD_COUNT: usize = 100;

/// How many events may wait for a subscriber.
pub fn stream_channel_buffer(value: Option<&str>) -> (r: usize)
    ensures
        r == positive_or(opt_str(value), usize::MAX as nat, 128),
{
    positive_usize(value, DEFAULT_STREAM_CHANNEL_BUF)
}

/// Whether a text is the id of an entry: two numbers with a `-` between them.
pub open spec fn is_stream_id(text: Seq<char>) -> bool {
    let parts = split(text, '-');
    parts.len() == 2 && parts[0].len() > 0 && parts[1].len() > 0 && all_digits(parts[0])
        && all_digits(parts[1])
}

/// Where a subscriber starts: at what comes next where it names nothing, else where it says, which
/// is at what comes next, at the beginning or behind an entry. Anything else is refused.
pub open spec fn start_of(start_id: Seq<char>) -> Option<Seq<char>> {
    if start_id.len() == 0 {
        Some("$"@)
    } else if start_id == "$"@ || start_id == "0"@ || is_stream_id(start_id) {
        Some(start_id)
    } else {
        None
    }
}

fn digits(s: &[char]) -> (r: bool)
    ensures
        r == all_digits(s@),
{
    let mut i: usize = 0;
    while i < s.len()
        invariant
            i <= s.len(),
            forall|k: int| 0 <= k < i ==> is_digit(#[trigger] s@[k]),
        decreases s.len() - i,
    {
        if !('0' <= s[i] && s[i] <= '9') {
            assert(!is_digit(s@[i as int]));
            return false;
        }
        i = i + 1;
    }
    true
}

/// Checks where a subscriber wants to start.
pub fn validate_start_id(start_id: &str) -> (r: Result<String, Status>)
    ensures
        match r {
            Ok(id) => start_of(start_id@) == Some(id@),
            Err(e) => start_of(start_id@) is None && e@ == invalid(
                "start_id must be a Redis stream ID (<millis>-<seq>), \"0\", or \"$\""@,
            ),
        },
{
    if start_id.is_empty() {
        return Ok("$".to_owned());
    }
    if same(start_id, "$") || same(start_id, "0") {
        return Ok(start_id.to_owned());
    }
    let chars = chars_of(start_id);
    let parts = split_chars(chars.as_slice(), '-');
    assert(char_views(parts@) == split(start_id@, '-'));
    if parts.len() == 2 {
        assert(char_views(parts@)[0] == parts@[0]@);
        assert(char_views(parts@)[1] == parts@[1]@);
        if parts[0].len() > 0 && parts[1].len() > 0 && digits(parts[0].as_slice()) && digits(
            parts[1].as_slice(),
        ) {
            return Ok(start_id.to_owned());
        }
    }
    Err(
        Status::invalid_argument(
            "start_id must be a Redis stream ID (<millis>-<seq>), \"0\", or \"$\"",
        ),
    )
}

/// A request for a stream.
#[derive(Debug)]
pub struct StreamEventsRequest {
    pub contract_id: String,
    pub topic_0: String,
    pub start_id: String,
}

/// What a subscriber gets.
#[derive(Debug)]
pub struct StreamSubscription {
    pub contract_id: String,
    pub topic_0: Option<String>,
    /// Behind which entry the stream starts.
    pub start_id: String,
}

/// Why a request for a stream is refused, if it is.
pub open spec fn subscription_fault(req: StreamEventsRequest) -> Option<Seq<char>> {
    if req.contract_id@.len() == 0 {
        Some("contract_id is required"@)
    } else if start_of(req.start_id@) is None {
        Some("start_id must be a Redis stream ID (<millis>-<seq>), \"0\", or \"$\""@)
    } else {
        None
    }
}

/// What a subscriber gets for its request.
pub fn subscribe(req: StreamEventsRequest) -> (r: Result<StreamSubscription, Status>)
    ensures
        match r {
            Ok(s) => {
                &&& subscription_fault(req) is None
                &&& s.contract_id@ == req.contract_id@
                &&& opt_view(s.topic_0) == if req.topic_0@.len() == 0 {
                    None
                } else {
                    Some(req.topic_0@)
                }
                &&& start_of(req.start_id@) == Some(s.start_id@)
            },
            Err(e) => subscription_fault(req) is Some && e@ == invalid(subscription_fault(req)->0),
        },
{
    if req.contract_id.as_str().is_empty() {
        return Err(Status::invalid_argument("contract_id is required"));
    }
    let start_id = match validate_start_id(req.start_id.as_str()) {
        Ok(id) => id,
        Err(e) => return Err(e),
    };
    let topic_0 = if req.topic_0.as_str().is_empty() {
        None
    } else {
        Some(req.topic_0)
    };
    Ok(StreamSubscription { contract_id: req.contract_id, topic_0, start_id })
}

/// A field of an entry: its name, and its bytes where it holds bytes.
#[derive(Debug)]
pub struct StreamField {
    pub name: String,
    pub data: Option<Vec<u8>>,
}

/// An entry of the stream.
#[derive(Debug)]
pub struct StreamEntry {
    pub id: String,
    pub fields: Vec<StreamField>,
}

/// The text of the field of a name; nothing where there is no such field or no text in it.
pub open spec fn field_of(fields: Seq<StreamField>, name: Seq<char>) -> Seq<char>
    decreases fields.len(),
{
    if fields.len() == 0 {
        Seq::empty()
    } else if fields[0].name@ == name {
        match fields[0].data {
            Some(bytes) => if vstd::utf8::valid_utf8(bytes@) {
                vstd::utf8::decode_utf8(bytes@)
            } else {
                Seq::empty()
            },
            None => Seq::empty(),
        }
    } else {
        field_of(fields.skip(1), name)
    }
}

/// The text of the field of a name; nothing where there is no such field or no text in it.
pub fn entry_field(entry: &StreamEntry, name: &str) -> (r: String)
    ensures
        r@ == field_of(entry.fields@, name@),
{
    let fields = &entry.fields;
    let mut i: usize = 0;
    proof {
        reveal_strlit("");
        assert(""@ =~= Seq::<char>::empty());
    }
    assert(fields@.skip(0) =~= fields@);
    while i < fields.len()
        invariant
            i <= fields.len(),
            fields == &entry.fields,
            ""@ == Seq::<char>::empty(),
            field_of(entry.fields@, name@) == field_of(fields@.skip(i as int), name@),
        decreases fields.len() - i,
    {
        assert(fields@.skip(i as int).skip(1) =~= fields@.skip(i + 1));
        assert(fields@.skip(i as int)[0] == fields@[i as int]);
        if same(fields[i].name.as_str(), name) {
            if let Some(bytes) = &fields[i].data {
                if let Some(text) = strict_text(bytes) {
                    return text;
                }
            }
            return "".to_owned();
        }
        i = i + 1;
    }
    "".to_owned()
}

/// A number out of a field, or zero.
pub open spec fn number_or_zero(text: Seq<char>, max: nat) -> nat {
    match parse_bounded(text, max) {
        Some(n) => n,
        None => 0,
    }
}

/// The topics of an entry; none where they cannot be read.
pub open spec fn entry_topics(fields: Seq<StreamField>) -> Seq<Seq<char>> {
    match json_strings_read(field_of(fields, "topics"@)) {
        Some(topics) => topics,
        None => Seq::empty(),
    }
}

/// The event that an entry hands on to a subscriber: that of its contract, and with the first topic
/// that it asked for, if it did.
pub open spec fn delivered(
    contract_id: Seq<char>,
    topic_0: Option<Seq<char>>,
    fields: Seq<StreamField>,
) -> Option<EventAnswer> {
    let topics = entry_topics(fields);
    if field_of(fields, "contract_id"@) != contract_id {
        None
    } else if topic_0 is Some && !(topics.len() > 0 && topics[0] == topic_0->0) {
        None
    } else {
        Some(
            EventAnswer {
                id: Seq::empty(),
                contract_id,
                ledger_sequence: number_or_zero(
                    field_of(fields, "ledger_sequence"@),
                    u64::MAX as nat,
                ) as u64,
                ledger_timestamp: field_of(fields, "ledger_timestamp"@),
                transaction_hash: field_of(fields, "transaction_hash"@),
                event_index: number_or_zero(
                    field_of(fields, "event_index"@),
                    u32::MAX as nat,
                ) as u32,
                event_type: field_of(fields, "event_type"@),
                topics,
                data: field_of(fields, "data"@),
                created_at: Seq::empty(),
            },
        )
    }
}

/// The event that an entry hands on to a subscriber.
pub fn deliver(subscription: &StreamSubscription, entry: &StreamEntry) -> (r: Option<Event>)
    ensures
        match r {
            Some(event) => delivered(
                subscription.contract_id@,
                opt_view(subscription.topic_0),
                entry.fields@,
            ) == Some(event@),
            None => delivered(
                subscription.contract_id@,
                opt_view(subscription.topic_0),
                entry.fields@,
            ) is None,
        },
{
    proof {
        reveal_strlit("");
        assert(""@ =~= Seq::<char>::empty());
    }
    let contract_id = entry_field(entry, "contract_id");
    if !same(contract_id.as_str(), subscription.contract_id.as_str()) {
        return None;
    }
    let topics = match read_strings(entry_field(entry, "topics").as_str()) {
        Some(topics) => topics,
        None => {
            let none: Vec<String> = Vec::new();
            assert(crate::text::views(none@) =~= Seq::<Seq<char>>::empty());
            none
        },
    };
    assert(crate::text::views(topics@) == entry_topics(entry.fields@));
    if let Some(wanted) = &subscription.topic_0 {
        if topics.len() == 0 {
            return None;
        }
        assert(crate::text::views(topics@)[0] == topics@[0]@);
        if !same(topics[0].as_str(), wanted.as_str()) {
            return None;
        }
    }
    let ledger_sequence: u64 = match parse_u64(entry_field(entry, "ledger_sequence").as_str()) {
        Some(n) => n,
        None => 0,
    };
    let event_index: u32 = match parse_u32(entry_field(entry, "event_index").as_str()) {
        Some(n) => n,
        None => 0,
    };
    Some(
        Event {
            id: "".to_owned(),
            contract_id,
            ledger_sequence,
            ledger_timestamp: entry_field(entry, "ledger_timestamp"),
            transaction_hash: entry_field(entry, "transaction_hash"),
            event_index,
            event_type: entry_field(entry, "event_type"),
            topics,
            data: entry_field(entry, "data"),
            created_at: "".to_owned(),
        },
    )
}

/// The events that some entries hand on to a subscriber, in order.
pub open spec fn all_delivered(
    contract_id: Seq<char>,
    topic_0: Option<Seq<char>>,
    entries: Seq<StreamEntry>,
) -> Seq<EventAnswer>
    decreases entries.len(),
{
    if entries.len() == 0 {
        Seq::empty()
    } else {
        let before = all_delivered(contract_id, topic_0, entries.drop_last());
        match delivered(contract_id, topic_0, entries.last().fields@) {
            Some(event) => before.push(event),
            None => before,
        }
    }
}

/// What some events are.
pub open spec fn event_answers(events: Seq<Event>) -> Seq<EventAnswer> {
    events.map_values(|e: Event| e@)
}

/// Takes what a read returned: behind which entry the next read starts, and the events to hand on.
/// The position moves past entries that are of no interest too.
pub fn take_entries(
    subscription: &StreamSubscription,
    last_id: String,
    entries: &[StreamEntry],
) -> (r: (String, Vec<Event>))
    ensures
        r.0@ == if entries@.len() > 0 {
            entries@.last().id@
        } else {
            last_id@
        },
        event_answers(r.1@) == all_delivered(
            subscription.contract_id@,
            opt_view(subscription.topic_0),
            entries@,
        ),
{
    let mut events: Vec<Event> = Vec::new();
    let ghost c = subscription.contract_id@;
    let ghost t = opt_view(subscription.topic_0);
    let mut i: usize = 0;
    assert(entries@.take(0) =~= Seq::<StreamEntry>::empty());
    assert(event_answers(events@) =~= Seq::<EventAnswer>::empty());
    while i < entries.len()
        invariant
            i <= entries.len(),
            c == subscription.contract_id@,
            t == opt_view(subscription.topic_0),
            event_answers(events@) == all_delivered(c, t, entries@.take(i as int)),
        decreases entries.len() - i,
    {
        assert(entries@.take(i + 1).drop_last() =~= entries@.take(i as int));
        assert(entries@.take(i + 1).last() == entries@[i as int]);
        if let Some(event) = deliver(subscription, &entries[i]) {
            let ghost before = events@;
            let ghost e = event@;
            events.push(event);
            assert(event_answers(events@) =~= event_answers(before).push(e));
        }
        i = i + 1;
    }
    assert(entries@.take(i as int) =~= entries@);
    let n: usize = entries.len();
    if n > 0 {
        (entries[n - 1].id.clone(), events)
    } else {
        (last_id, events)
    }
}

/// Whether the fields of an entry are just the given names and texts, in order.
pub open spec fn holds_texts(fields: Seq<StreamField>, texts: Seq<(Seq<char>, Seq<char>)>) -> bool {
    &&& fields.len() == texts.len()
    &&& forall|i: int|
        0 <= i < fields.len() ==> (#[trigger] fields[i]).name@ == texts[i].0 && fields[i].data
            is Some && fields[i].data->0@ == vstd::utf8::encode_utf8(texts[i].1)
}

proof fn lemma_field(
    fields: Seq<StreamField>,
    texts: Seq<(Seq<char>, Seq<char>)>,
    i: int,
    name: Seq<char>,
)
    requires
        holds_texts(fields, texts),
        0 <= i < fields.len(),
        texts[i].0 == name,
        forall|k: int| 0 <= k < i ==> (#[trigger] texts[k]).0 != name,
    ensures
        field_of(fields, name) == texts[i].1,
    decreases i,
{
    vstd::utf8::encode_utf8_valid_utf8(texts[i].1);
    vstd::utf8::encode_utf8_decode_utf8(texts[i].1);
    if i > 0 {
        assert(fields[0].name@ == texts[0].0);
        let f = fields.skip(1);
        let t = texts.skip(1);
        assert(holds_texts(f, t)) by {
            assert forall|k: int| 0 <= k < f.len() implies (#[trigger] f[k]).name@ == t[k].0
                && f[k].data is Some && f[k].data->0@ == vstd::utf8::encode_utf8(t[k].1) by {
                assert(f[k] == fields[k + 1]);
                assert(t[k] == texts[k + 1]);
            }
        }
        assert forall|k: int| 0 <= k < i - 1 implies (#[trigger] t[k]).0 != name by {
            assert(t[k] == texts[k + 1]);
        }
        assert(t[i - 1] == texts[i]);
        lemma_field(f, t, i - 1, name);
    }
}

proof fn lemma_names_differ()
    ensures
        ({
            let names = seq![
                "contract_id"@,
                "ledger_sequence"@,
                "ledger_timestamp"@,
                "transaction_hash"@,
                "event_index"@,
                "event_type"@,
                "topics"@,
                "data"@,
            ];
            forall|i: int, j: int|
                0 <= i < j < 8 ==> #[trigger] names[i] != #[trigger] names[j]
        }),
{
    reveal_strlit("contract_id");
    reveal_strlit("ledger_sequence");
    reveal_strlit("ledger_timestamp");
    reveal_strlit("transaction_hash");
    reveal_strlit("event_index");
    reveal_strlit("event_type");
    reveal_strlit("topics");
    reveal_strlit("data");
    assert("contract_id"@[0] == 'c' && "event_index"@[0] == 'e');
    assert("ledger_sequence"@.len() == 15 && "ledger_timestamp"@.len() == 16
        && "transaction_hash"@.len() == 16 && "contract_id"@.len() == 11 && "event_index"@.len()
        == 11 && "event_type"@.len() == 10 && "topics"@.len() == 6 && "data"@.len() == 4);
    assert("ledger_timestamp"@[0] == 'l' && "transaction_hash"@[0] == 't');
}

/// What is published for an event comes out at a subscriber of its contract as that event, and at a
/// subscriber of another contract or of another first topic not at all.
pub proof fn published_events_are_delivered(
    event: EventView,
    data: Seq<char>,
    event_id: Option<Seq<char>>,
    fields: Seq<StreamField>,
    contract_id: Seq<char>,
    topic_0: Option<Seq<char>>,
)
    requires
        holds_texts(fields, stream_entry(event, data, event_id)),
        json_strings_read(json_strings(event.topics)) == Some(event.topics),
    ensures
        delivered(contract_id, topic_0, fields) == if contract_id == event.contract_id && (topic_0
            is None || event.topics.len() > 0 && event.topics[0] == topic_0->0) {
            Some(
                EventAnswer {
                    id: Seq::empty(),
                    contract_id: event.contract_id,
                    ledger_sequence: event.ledger_sequence,
                    ledger_timestamp: event.ledger_timestamp,
                    transaction_hash: event.transaction_hash,
                    event_index: event.event_index,
                    event_type: event.event_type.name(),
                    topics: event.topics,
                    data,
                    created_at: Seq::empty(),
                },
            )
        } else {
            None
        },
{
    let texts = stream_entry(event, data, event_id);
    let names = seq![
        "contract_id"@,
        "ledger_sequence"@,
        "ledger_timestamp"@,
        "transaction_hash"@,
        "event_index"@,
        "event_type"@,
        "topics"@,
        "data"@,
    ];
    lemma_names_differ();
    assert forall|i: int| 0 <= i < 8 implies field_of(fields, #[trigger] names[i])
        == texts[i].1 by {
        assert(texts[i].0 == names[i]);
        assert forall|k: int| 0 <= k < i implies (#[trigger] texts[k]).0 != names[i] by {
            assert(texts[k].0 == names[k]);
            assert(names[k] != names[i]);
        }
        lemma_field(fields, texts, i, names[i]);
    }
    assert(field_of(fields, names[0]) == event.contract_id);
    assert(field_of(fields, names[1]) == dec(event.ledger_sequence as nat));
    assert(field_of(fields, names[2]) == event.ledger_timestamp);
    assert(field_of(fields, names[3]) == event.transaction_hash);
    assert(field_of(fields, names[4]) == dec(event.event_index as nat));
    assert(field_of(fields, names[5]) == event.event_type.name());
    assert(field_of(fields, names[6]) == json_strings(event.topics));
    assert(field_of(fields, names[7]) == data);
    dec_parses_back(event.ledger_sequence as nat);
    dec_parses_back(event.event_index as nat);
}

/// A subscriber that names no start gets what comes next, and one that names where to start gets
/// just that: what comes next, everything, or what stands behind an entry, which is named by two
/// numbers with a dash between them.
pub proof fn streams_start_where_asked(a: nat, b: nat, text: Seq<char>)
    ensures
        start_of(Seq::empty()) == Some("$"@),
        start_of("$"@) == Some("$"@),
        start_of("0"@) == Some("0"@),
        start_of(dec(a) + seq!['-'] + dec(b)) == Some(dec(a) + seq!['-'] + dec(b)),
        text.len() > 0 && start_of(text) is Some ==> start_of(text)->0 == text,
        text.len() > 0 && text != "$"@ && text != "0"@ && !text.contains('-') ==> start_of(text)
            is None,
{
    reveal_strlit("$");
    reveal_strlit("0");
    dec_parses_back(a);
    dec_parses_back(b);
    lemma_dec_value(a);
    lemma_dec_value(b);
    let parts = seq![dec(a), dec(b)];
    let id = dec(a) + seq!['-'] + dec(b);
    assert(!dec(a).contains('-')) by {
        if dec(a).contains('-') {
            let k = choose|k: int| 0 <= k < dec(a).len() && dec(a)[k] == '-';
            assert(is_digit(dec(a)[k]));
        }
    }
    assert(!dec(b).contains('-')) by {
        if dec(b).contains('-') {
            let k = choose|k: int| 0 <= k < dec(b).len() && dec(b)[k] == '-';
            assert(is_digit(dec(b)[k]));
        }
    }
    joined_texts_split_back(parts, '-');
    joins_put_the_separator_between(seq![dec(a)], dec(b), seq!['-']);
    assert(parts =~= seq![dec(a)].push(dec(b)));
    assert(join(parts, seq!['-']) =~= id);
    if !text.contains('-') {
        the_last_piece_stands_behind_the_last_separator(Seq::empty(), '-', text);
    }
}

/// A request without a contract is refused for that, whatever else it asks; one with a contract is
/// refused just where its start cannot be told.
pub proof fn subscriptions_need_a_contract_and_a_start(req: StreamEventsRequest)
    ensures
        req.contract_id@.len() == 0 ==> subscription_fault(req) == Some("contract_id is required"@),
        req.contract_id@.len() > 0 && start_of(req.start_id@) is None ==> subscription_fault(req)
            == Some("start_id must be a Redis stream ID (<millis>-<seq>), \"0\", or \"$\""@),
        req.contract_id@.len() > 0 && start_of(req.start_id@) is Some ==> subscription_fault(req)
            is None,
{
}

/// A field is found by its name: of several of one name the first counts, and what holds no text is
/// read as nothing.
pub proof fn fields_are_found_by_name(fields: Seq<StreamField>, i: int)
    requires
        0 <= i < fields.len(),
        forall|k: int| 0 <= k < i ==> (#[trigger] fields[k]).name@ != fields[i].name@,
    ensures
        fields[i].data is None ==> field_of(fields, fields[i].name@).len() == 0,
        fields[i].data is Some && !vstd::utf8::valid_utf8(fields[i].data->0@) ==> field_of(
            fields,
            fields[i].name@,
        ).len() == 0,
        fields[i].data is Some && vstd::utf8::valid_utf8(fields[i].data->0@) ==> field_of(
            fields,
            fields[i].name@,
        ) == vstd::utf8::decode_utf8(fields[i].data->0@),
    decreases i,
{
    if i > 0 {
        assert(fields[0].name@ != fields[i].name@);
        let rest = fields.skip(1);
        assert(rest[i - 1] == fields[i]);
        assert forall|k: int| 0 <= k < i - 1 implies (#[trigger] rest[k]).name@ != rest[i
            - 1].name@ by {
            assert(rest[k] == fields[k + 1]);
        }
        fields_are_found_by_name(rest, i - 1);
    }
}

/// A field that is not there is read as nothing.
pub proof fn missing_fields_are_empty(fields: Seq<StreamField>, name: Seq<char>)
    requires
        forall|k: int| 0 <= k < fields.len() ==> (#[trigger] fields[k]).name@ != name,
    ensures
        field_of(fields, name).len() == 0,
    decreases fields.len(),
{
    if fields.len() > 0 {
        assert(fields[0].name@ != name);
        let rest = fields.skip(1);
        assert forall|k: int| 0 <= k < rest.len() implies (#[trigger] rest[k]).name@ != name by {
            assert(rest[k] == fields[k + 1]);
        }
        missing_fields_are_empty(rest, name);
    }
}

/// What a run of entries hands on is what its parts hand on, one after the other: an entry hands on
/// its event or nothing.
pub proof fn entries_are_handed_on_in_order(
    contract_id: Seq<char>,
    topic_0: Option<Seq<char>>,
    a: Seq<StreamEntry>,
    b: Seq<StreamEntry>,
    entry: StreamEntry,
)
    ensures
        all_delivered(contract_id, topic_0, a + b) == all_delivered(contract_id, topic_0, a)
            + all_delivered(contract_id, topic_0, b),
        delivered(contract_id, topic_0, entry.fields@) is None ==> all_delivered(
            contract_id,
            topic_0,
            seq![entry],
        ).len() == 0,
        delivered(contract_id, topic_0, entry.fields@) is Some ==> all_delivered(
            contract_id,
            topic_0,
            seq![entry],
        ) == seq![delivered(contract_id, topic_0, entry.fields@)->0],
    decreases b.len(),
{
    let one = seq![entry];
    assert(one.drop_last() =~= Seq::<StreamEntry>::empty());
    assert(one.last() == entry);
    assert(all_delivered(contract_id, topic_0, one.drop_last()) =~= Seq::<EventAnswer>::empty());
    if delivered(contract_id, topic_0, entry.fields@) is Some {
        assert(all_delivered(contract_id, topic_0, one) =~= seq![
            delivered(contract_id, topic_0, entry.fields@)->0,
        ]);
    }
    if b.len() == 0 {
        assert(a + b =~= a);
        assert(all_delivered(contract_id, topic_0, b) =~= Seq::<EventAnswer>::empty());
        assert(all_delivered(contract_id, topic_0, a) + Seq::<EventAnswer>::empty()
            =~= all_delivered(contract_id, topic_0, a));
    } else {
        entries_are_handed_on_in_order(contract_id, topic_0, a, b.drop_last(), entry);
        assert((a + b).drop_last() =~= a + b.drop_last());
        assert((a + b).last() == b.last());
        assert(all_delivered(contract_id, topic_0, a + b) =~= all_delivered(contract_id, topic_0, a)
            + all_delivered(contract_id, topic_0, b));
    }
}

/// Numbers that cannot be read come out as zero.
pub proof fn unreadable_numbers_are_zero(n: nat, max: nat, text: Seq<char>)
    ensures
        n <= max ==> number_or_zero(dec(n), max) == n,
        n > max ==> number_or_zero(dec(n), max) == 0,
        parse_bounded(text, max) is None ==> number_or_zero(text, max) == 0,
{
    dec_parses_back(n);
}

/// A subscription is for the contract and the first topic asked for, from the start asked for.
pub proof fn subscriptions_are_as_asked(
    req: StreamEventsRequest,
    r: Result<StreamSubscription, Status>,
)
    requires
        call_ensures(subscribe, (req,), r),
    ensures
        r matches Ok(s) ==> {
            &&& s.contract_id@ == req.contract_id@
            &&& req.topic_0@.len() == 0 ==> s.topic_0 is None
            &&& req.topic_0@.len() > 0 ==> opt_view(s.topic_0) == Some(req.topic_0@)
            &&& req.start_id@.len() == 0 ==> s.start_id@ == "$"@
            &&& req.start_id@.len() > 0 ==> s.start_id@ == req.start_id@
        },
        r is Ok <==> subscription_fault(req) is None,
        r matches Err(e) ==> Some(e.message@) == subscription_fault(req),
{
}

/// After a read the stream goes on behind the last entry that came, or where it was where none did.
pub proof fn streams_go_on_behind_the_last_entry(
    subscription: StreamSubscription,
    last_id: String,
    entries: &[StreamEntry],
    r: (String, Vec<Event>),
)
    requires
        call_ensures(take_entries, (&subscription, last_id, entries), r),
    ensures
        entries@.len() == 0 ==> r.0@ == last_id@ && r.1@.len() == 0,
        entries@.len() > 0 ==> r.0@ == entries@[entries@.len() - 1].id@,
        event_answers(r.1@) == all_delivered(
            subscription.contract_id@,
            opt_view(subscription.topic_0),
            entries@,
        ),
{
    if entries@.len() == 0 {
        assert(event_answers(r.1@).len() == 0);
    }
}

/// An event that is delivered is of the contract subscribed to, with the first topic asked for.
pub proof fn deliveries_are_of_the_subscription(
    subscription: StreamSubscription,
    entry: StreamEntry,
    event: Event,
)
    requires
        call_ensures(deliver, (&subscription, &entry), Some(event)),
    ensures
        event.contract_id@ == subscription.contract_id@,
        event.contract_id@ == field_of(entry.fields@, "contract_id"@),
        event.ledger_timestamp@ == field_of(entry.fields@, "ledger_timestamp"@),
        event.transaction_hash@ == field_of(entry.fields@, "transaction_hash"@),
        event.event_type@ == field_of(entry.fields@, "event_type"@),
        event.data@ == field_of(entry.fields@, "data"@),
        event.id@.len() == 0,
        event.created_at@.len() == 0,
        subscription.topic_0 is Some ==> event.topics@.len() > 0 && event.topics@[0]@
            == subscription.topic_0->0@,
{
    assert(event@.topics == crate::text::views(event.topics@));
    if event.topics@.len() > 0 {
        assert(crate::text::views(event.topics@)[0] == event.topics@[0]@);
    }
}

/// An id has a number on both sides of its dash: without one on either side, or with anything but
/// digits in them, it is no id.
pub proof fn ids_have_numbers_on_both_sides(left: Seq<char>, right: Seq<char>)
    requires
        !left.contains('-'),
        !right.contains('-'),
    ensures
        start_of(left + seq!['-'] + right) is Some <==> left.len() > 0 && right.len() > 0
            && all_digits(left) && all_digits(right),
{
    let parts = seq![left, right];
    let id = left + seq!['-'] + right;
    joined_texts_split_back(parts, '-');
    joins_put_the_separator_between(seq![left], right, seq!['-']);
    assert(parts =~= seq![left].push(right));
    assert(join(parts, seq!['-']) =~= id);
    reveal_strlit("$");
    reveal_strlit("0");
    assert(id[left.len() as int] == '-');
    assert(id != "$"@) by {
        if id == "$"@ {
            assert("$"@[left.len() as int] == '-');
            assert("$"@.len() == 1);
        }
    }
    assert(id != "0"@) by {
        if id == "0"@ {
            assert("0"@[left.len() as int] == '-');
            assert("0"@.len() == 1);
        }
    }
}

} // verus!
