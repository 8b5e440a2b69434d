//! Events as the RPC hands them out, and the rules by which they become normalised events.
use vstd::prelude::*;

use crate::decode::decode_scval;
use crate::decode::scval_decoded;
use crate::errors::ErrorSource;
use crate::errors::TridentError;
use crate::json::JsonView;
use crate::scval::sc_text;
use crate::scval::sc_views;
use crate::scval::scval_to_string;
use crate::scval::ScVal;
use crate::scval::ScView;
use crate::scval_json::sc_json;
use crate::scval_json::scval_to_json;
use crate::text::char_views;
use crate::text::chars_of;
use crate::text::dec;
use crate::text::dec_parses_back;
use crate::text::is_digit;
use crate::text::lemma_dec_value;
use crate::text::opt_view;
use crate::text::parse_bounded;
use crate::text::parse_u32;
use crate::text::parse_u64;
use crate::text::same;
use crate::text::split;
use crate::text::split_chars;
use crate::text::string_of;
use crate::text::the_last_piece_stands_behind_the_last_separator;
use crate::text::views;
use crate::types::EventType;
use crate::types::EventView;
use crate::types::SorobanEvent;

verus! {

broadcast use vstd::string::group_string_axioms;

/// A raw event of the RPC's `getEvents`. Topics and value are base64 XDR.
#[derive(Debug)]
pub struct RawEvent {
    pub event_type: String,
    /// The ledger sequence number in decimal.
    pub ledger: String,
    pub ledger_closed_at: String,
    pub contract_id: Option<String>,
    pub id: String,
    /// Where to resume paging, on servers that still name it apart from the id.
    pub paging_token: Option<String>,
    pub tx_hash: String,
    /// The position of the operation in the transaction, on servers that tell it.
    pub operation_index: Option<u32>,
    pub topic: Vec<String>,
    pub value: String,
    pub in_successful_contract_call: bool,
}

/// What a raw event is.
pub struct RawView {
    pub event_type: Seq<char>,
    pub ledger: Seq<char>,
    pub ledger_closed_at: Seq<char>,
    pub contract_id: Option<Seq<char>>,
    pub id: Seq<char>,
    pub paging_token: Option<Seq<char>>,
    pub tx_hash: Seq<char>,
    pub operation_index: Option<u32>,
    pub topic: Seq<Seq<char>>,
    pub value: Seq<char>,
    pub in_successful_contract_call: bool,
}

impl View for RawEvent {
    type V = RawView;

    open spec fn view(&self) -> RawView {
        RawView {
            event_type: self.event_type@,
            ledger: self.ledger@,
            ledger_closed_at: self.ledger_closed_at@,
            contract_id: opt_view(self.contract_id),
            id: self.id@,
            paging_token: opt_view(self.paging_token),
            tx_hash: self.tx_hash@,
            operation_index: self.operation_index,
            topic: views(self.topic@),
            value: self.value@,
            in_successful_contract_call: self.in_successful_contract_call,
        }
    }
}

impl RawView {
    /// Where paging resumes after this event.
    pub open spec fn cursor(self) -> Seq<char> {
        match self.paging_token {
            Some(token) => token,
            None => self.id,
        }
    }

    /// The contract that emitted the event, or nothing.
    pub open spec fn contract(self) -> Seq<char> {
        match self.contract_id {
            Some(id) => id,
            None => Seq::empty(),
        }
    }

    /// The position of the event in its transaction: the operation's where the server tells it,
    /// else the number behind the last `-` of the id, else zero.
    pub open spec fn index(self) -> nat {
        match self.operation_index {
            Some(i) => i as nat,
            None => match parse_bounded(split(self.id, '-').last(), u32::MAX as nat) {
                Some(n) => n,
                None => 0,
            },
        }
    }
}

impl RawEvent {
    /// Where paging resumes after this event.
    pub fn page_cursor(&self) -> (r: String)
        ensures
            r@ == self@.cursor(),
    {
        match &self.paging_token {
            Some(token) => token.clone(),
            None => self.id.clone(),
        }
    }

    /// The contract that emitted the event, or nothing.
    pub fn contract(&self) -> (r: String)
        ensures
            r@ == self@.contract(),
    {
        match &self.contract_id {
            Some(id) => id.clone(),
            None => String::new(),
        }
    }
}

/// The position of an event in its transaction.
pub fn raw_event_index(raw: &RawEvent) -> (r: u32)
    ensures
        r as nat == raw@.index(),
{
    match raw.operation_index {
        Some(i) => i,
        None => {
            let chars = chars_of(raw.id.as_str());
            let pieces = split_chars(&chars, '-');
            let last: usize = pieces.len() - 1;
            assert(char_views(pieces@).last() == pieces@[last as int]@);
            let suffix = string_of(&pieces[last]);
            match parse_u32(suffix.as_str()) {
                Some(n) => n,
                None => 0,
            }
        },
    }
}

/// The kind of event that a name stands for.
pub open spec fn event_type_of(name: Seq<char>) -> Option<EventType> {
    if name == "contract"@ {
        Some(EventType::Contract)
    } else if name == "system"@ {
        Some(EventType::System)
    } else if name == "diagnostic"@ {
        Some(EventType::Diagnostic)
    } else {
        None
    }
}

/// Reads the kind of an event.
pub fn parse_event_type(raw: &str) -> (r: Result<EventType, TridentError>)
    ensures
        match r {
            Ok(t) => event_type_of(raw@) == Some(t),
            Err(e) => event_type_of(raw@) is None && e is ParseError && e.cause().text()
                == "unknown event type: "@ + raw@,
        },
{
    if same(raw, "contract") {
        Ok(EventType::Contract)
    } else if same(raw, "system") {
        Ok(EventType::System)
    } else if same(raw, "diagnostic") {
        Ok(EventType::Diagnostic)
    } else {
        let mut text = "unknown event type: ".to_owned();
        text.append(raw);
        Err(TridentError::parse(ErrorSource::msg(text)))
    }
}

/// The values of base64 topics, or the message for the first one that does not decode.
pub open spec fn topics_decoded(topics: Seq<Seq<char>>) -> Result<Seq<ScView>, Seq<char>>
    decreases topics.len(),
{
    if topics.len() == 0 {
        Ok(Seq::empty())
    } else {
        match topics_decoded(topics.drop_last()) {
            Err(e) => Err(e),
            Ok(before) => match scval_decoded(topics.last()) {
                Err(e) => Err(e),
                Ok(v) => Ok(before.push(v)),
            },
        }
    }
}

proof fn lemma_topic_error_stays(topics: Seq<Seq<char>>, k: int)
    requires
        0 <= k <= topics.len(),
        topics_decoded(topics.take(k)) is Err,
    ensures
        topics_decoded(topics) == topics_decoded(topics.take(k)),
    decreases topics.len() - k,
{
    if k == topics.len() {
        assert(topics.take(k) =~= topics);
    } else {
        assert(topics.take(k + 1).drop_last() =~= topics.take(k));
        lemma_topic_error_stays(topics, k + 1);
    }
}

/// Decodes base64 topics.
pub fn decode_topics(topics: &[String]) -> (r: Result<Vec<ScVal>, TridentError>)
    ensures
        match r {
            Ok(vals) => topics_decoded(views(topics@)) == Ok::<Seq<ScView>, Seq<char>>(
                sc_views(vals@),
            ),
            Err(e) => e is ParseError && topics_decoded(views(topics@)) == Err::<
                Seq<ScView>,
                Seq<char>,
            >(e.cause().text()),
        },
{
    let mut vals: Vec<ScVal> = Vec::new();
    let mut i: usize = 0;
    let ghost all = views(topics@);
    assert(all.take(0) =~= Seq::<Seq<char>>::empty());
    while i < topics.len()
        invariant
            i <= topics.len(),
            all == views(topics@),
            topics_decoded(all.take(i as int)) == Ok::<Seq<ScView>, Seq<char>>(sc_views(vals@)),
        decreases topics.len() - i,
    {
        assert(all.take(i + 1).drop_last() =~= all.take(i as int));
        assert(all.take(i + 1).last() == topics@[i as int]@);
        match decode_scval(topics[i].as_str()) {
            Ok(v) => {
                let ghost before = vals@;
                vals.push(v);
                assert(vals@.drop_last() =~= before);
            },
            Err(e) => {
                proof {
                    lemma_topic_error_stays(all, i + 1);
                }
                return Err(e);
            },
        }
        i = i + 1;
    }
    assert(all.take(i as int) =~= all);
    Ok(vals)
}

/// The texts of values.
pub open spec fn texts_of(vals: Seq<ScView>) -> Seq<Seq<char>> {
    Seq::new(vals.len(), |i: int| sc_text(vals[i]))
}

/// Renders values as texts.
pub fn render_topics(vals: &[ScVal]) -> (r: Vec<String>)
    ensures
        views(r@) == texts_of(sc_views(vals@)),
{
    let mut out: Vec<String> = Vec::new();
    let mut i: usize = 0;
    proof {
        crate::scval::lemma_sc_views(vals@);
    }
    while i < vals.len()
        invariant
            i <= vals.len(),
            out@.len() == i,
            sc_views(vals@).len() == vals@.len(),
            forall|k: int| 0 <= k < vals@.len() ==> #[trigger] sc_views(vals@)[k]
                == crate::scval::sc_view(vals@[k]),
            forall|k: int| 0 <= k < i ==> (#[trigger] out@[k])@ == sc_text(sc_views(vals@)[k]),
        decreases vals.len() - i,
    {
        out.push(scval_to_string(&vals[i]));
        i = i + 1;
    }
    assert(views(out@) =~= texts_of(sc_views(vals@)));
    out
}

/// The value of a body, or the message of the error; an empty body is the empty value.
pub open spec fn body_decoded(value: Seq<char>) -> Result<ScView, Seq<char>> {
    if value.len() == 0 {
        Ok(ScView::Void)
    } else {
        scval_decoded(value)
    }
}

/// Decodes a body.
pub fn decode_body(value: &str) -> (r: Result<ScVal, TridentError>)
    ensures
        match r {
            Ok(v) => body_decoded(value@) == Ok::<ScView, Seq<char>>(v@),
            Err(e) => e is ParseError && body_decoded(value@) == Err::<ScView, Seq<char>>(
                e.cause().text(),
            ),
        },
{
    if value.is_empty() {
        Ok(ScVal::Void)
    } else {
        decode_scval(value)
    }
}

/// A normalised event, with the values that its topics and its body were made of.
#[derive(Debug)]
pub struct Normalised {
    pub event: SorobanEvent,
    pub topics: Vec<ScVal>,
    pub body: ScVal,
}

/// What a normalised event is, with the values that it was made of.
pub struct NormalisedView {
    pub event: EventView,
    pub topics: Seq<ScView>,
    pub body: ScView,
}

impl View for Normalised {
    type V = NormalisedView;

    open spec fn view(&self) -> NormalisedView {
        NormalisedView { event: self.event@, topics: sc_views(self.topics@), body: self.body@ }
    }
}

/// Whether an event of a known kind is skipped: a diagnostic one where those are not indexed, and
/// any event of a call that failed.
pub open spec fn skipped(event_type: EventType, raw: RawView, index_diagnostic: bool) -> bool {
    (event_type == EventType::Diagnostic && !index_diagnostic) || !raw.in_successful_contract_call
}

/// The normalised form of a raw event: nothing where the event is skipped, or the message of the
/// error where a part of it does not decode.
pub open spec fn normalised(raw: RawView, index_diagnostic: bool) -> Result<
    Option<NormalisedView>,
    Seq<char>,
> {
    match event_type_of(raw.event_type) {
        None => Err("unknown event type: "@ + raw.event_type),
        Some(event_type) => if skipped(event_type, raw, index_diagnostic) {
            Ok(None)
        } else {
            match topics_decoded(raw.topic) {
                Err(e) => Err(e),
                Ok(topics) => match body_decoded(raw.value) {
                    Err(e) => Err(e),
                    Ok(body) => match parse_bounded(raw.ledger, u64::MAX as nat) {
                        None => Err("invalid ledger: "@ + raw.ledger),
                        Some(ledger) => Ok(
                            Some(
                                NormalisedView {
                                    event: EventView {
                                        contract_id: raw.contract(),
                                        topics: texts_of(topics),
                                        data: sc_json(body),
                                        ledger_sequence: ledger as u64,
                                        ledger_timestamp: raw.ledger_closed_at,
                                        transaction_hash: raw.tx_hash,
                                        event_index: raw.index() as u32,
                                        event_type,
                                    },
                                    topics,
                                    body,
                                },
                            ),
                        ),
                    },
                },
            }
        },
    }
}

/// Normalises a raw event.
pub fn normalise(raw: &RawEvent, index_diagnostic: bool) -> (r: Result<
    Option<Normalised>,
    TridentError,
>)
    ensures
        match r {
            Ok(None) => normalised(raw@, index_diagnostic) == Ok::<
                Option<NormalisedView>,
                Seq<char>,
            >(None),
            Ok(Some(n)) => normalised(raw@, index_diagnostic) == Ok::<
                Option<NormalisedView>,
                Seq<char>,
            >(Some(n@)),
            Err(e) => e is ParseError && normalised(raw@, index_diagnostic) == Err::<
                Option<NormalisedView>,
                Seq<char>,
            >(e.cause().text()),
        },
{
    let event_type = match parse_event_type(raw.event_type.as_str()) {
        Ok(t) => t,
        Err(e) => return Err(e),
    };
    if event_type == EventType::Diagnostic && !index_diagnostic {
        return Ok(None);
    }
    if !raw.in_successful_contract_call {
        return Ok(None);
    }
    let topics = match decode_topics(&raw.topic) {
        Ok(topics) => topics,
        Err(e) => return Err(e),
    };
    let body = match decode_body(raw.value.as_str()) {
        Ok(body) => body,
        Err(e) => return Err(e),
    };
    let ledger_sequence: u64 = match parse_u64(raw.ledger.as_str()) {
        Some(n) => n,
        None => {
            let mut text = "invalid ledger: ".to_owned();
            text.append(raw.ledger.as_str());
            return Err(TridentError::parse(ErrorSource::msg(text)));
        },
    };
    let event = SorobanEvent {
        contract_id: raw.contract(),
        topics: render_topics(&topics),
        data: scval_to_json(&body),
        ledger_sequence,
        ledger_timestamp: raw.ledger_closed_at.clone(),
        transaction_hash: raw.tx_hash.clone(),
        event_index: raw_event_index(raw),
        event_type,
    };
    Ok(Some(Normalised { event, topics, body }))
}

/// A failed call, or a diagnostic event where those are not indexed, is skipped whatever its
/// topics and its body hold.
pub proof fn skipped_events_never_fail(raw: RawView, index_diagnostic: bool)
    requires
        event_type_of(raw.event_type) is Some,
        skipped(event_type_of(raw.event_type)->0, raw, index_diagnostic),
    ensures
        normalised(raw, index_diagnostic) == Ok::<Option<NormalisedView>, Seq<char>>(None),
{
}

/// An event that comes out of a raw one carries the raw one's fields under their own names: the
/// contract or nothing, the time of the ledger, the transaction, the number of the ledger, the kind.
/// It has one topic for each raw topic, in their order, each the text of the value that it decodes to,
/// and its body is the JSON of the value of the raw body, null where there is none.
pub proof fn events_carry_the_raw_fields(raw: RawView, index_diagnostic: bool, n: NormalisedView)
    requires
        normalised(raw, index_diagnostic) == Ok::<Option<NormalisedView>, Seq<char>>(Some(n)),
    ensures
        match raw.contract_id {
            Some(id) => n.event.contract_id == id,
            None => n.event.contract_id.len() == 0,
        },
        n.event.ledger_timestamp == raw.ledger_closed_at,
        n.event.transaction_hash == raw.tx_hash,
        parse_bounded(raw.ledger, u64::MAX as nat) == Some(n.event.ledger_sequence as nat),
        n.event.event_type.name() == raw.event_type,
        n.event.topics.len() == raw.topic.len(),
        n.topics.len() == raw.topic.len(),
        forall|i: int|
            0 <= i < raw.topic.len() ==> scval_decoded(#[trigger] raw.topic[i]) == Ok::<
                ScView,
                Seq<char>,
            >(n.topics[i]) && n.event.topics[i] == sc_text(n.topics[i]),
        raw.value.len() > 0 ==> scval_decoded(raw.value) == Ok::<ScView, Seq<char>>(n.body)
            && n.event.data == sc_json(n.body),
        raw.value.len() == 0 ==> n.body == ScView::Void && n.event.data == JsonView::Null,
        raw.operation_index is Some ==> n.event.event_index == raw.operation_index->0,
        raw.in_successful_contract_call,
        raw.event_type == "diagnostic"@ ==> index_diagnostic,
{
    topics_are_decoded_in_order(raw.topic);
    reveal_strlit("contract");
    reveal_strlit("system");
    reveal_strlit("diagnostic");
    assert("contract"@.len() != "diagnostic"@.len());
    assert("system"@.len() != "diagnostic"@.len());
}

/// Topics decode to the values of all of them in their order, or fail with the error of the first that
/// does not decode.
pub proof fn topics_are_decoded_in_order(topics: Seq<Seq<char>>)
    ensures
        match topics_decoded(topics) {
            Ok(vals) => vals.len() == topics.len() && forall|i: int|
                0 <= i < topics.len() ==> scval_decoded(#[trigger] topics[i]) == Ok::<
                    ScView,
                    Seq<char>,
                >(vals[i]),
            Err(e) => exists|i: int|
                0 <= i < topics.len() && scval_decoded(#[trigger] topics[i]) == Err::<
                    ScView,
                    Seq<char>,
                >(e) && forall|k: int| 0 <= k < i ==> scval_decoded(#[trigger] topics[k]) is Ok,
        },
    decreases topics.len(),
{
    if topics.len() > 0 {
        let rest = topics.drop_last();
        let n = topics.len() - 1;
        topics_are_decoded_in_order(rest);
        assert(topics.last() == topics[n]);
        match topics_decoded(rest) {
            Err(e) => {
                let i = choose|i: int|
                    0 <= i < rest.len() && scval_decoded(#[trigger] rest[i]) == Err::<
                        ScView,
                        Seq<char>,
                    >(e) && forall|k: int| 0 <= k < i ==> scval_decoded(#[trigger] rest[k]) is Ok;
                assert(topics[i] == rest[i]);
                assert forall|k: int| 0 <= k < i implies scval_decoded(
                    #[trigger] topics[k],
                ) is Ok by {
                    assert(topics[k] == rest[k]);
                }
            },
            Ok(vals) => {
                assert forall|k: int| 0 <= k < n implies scval_decoded(#[trigger] topics[k]) == Ok::<
                    ScView,
                    Seq<char>,
                >(vals[k]) by {
                    assert(topics[k] == rest[k]);
                }
            },
        }
    }
}

/// An event is left out exactly where its call failed, or where it is diagnostic and those are not
/// wanted; it is refused exactly where its kind is unknown or a part of one that is not left out cannot
/// be read.
pub proof fn events_are_left_out_or_refused_for_a_reason(raw: RawView, index_diagnostic: bool)
    ensures
        ({
            let known = raw.event_type == "contract"@ || raw.event_type == "system"@ || raw.event_type
                == "diagnostic"@;
            let out = !raw.in_successful_contract_call || (raw.event_type == "diagnostic"@
                && !index_diagnostic);
            &&& normalised(raw, index_diagnostic) == Ok::<Option<NormalisedView>, Seq<char>>(None)
                <==> known && out
            &&& normalised(raw, index_diagnostic) is Err <==> !known || (!out && (topics_decoded(
                raw.topic,
            ) is Err || (raw.value.len() > 0 && scval_decoded(raw.value) is Err) || parse_bounded(
                raw.ledger,
                u64::MAX as nat,
            ) is None))
        }),
{
    reveal_strlit("contract");
    reveal_strlit("system");
    reveal_strlit("diagnostic");
    assert("contract"@.len() != "diagnostic"@.len());
    assert("system"@.len() != "diagnostic"@.len());
}

/// The position of an event is that of its operation where the server tells it, and else the number
/// behind the last hyphen of its id; an id that does not end in a number gives none.
pub proof fn positions_come_from_the_operation_or_the_id(raw: RawView, before: Seq<char>, n: u32)
    ensures
        raw.operation_index is Some ==> raw.index() == raw.operation_index->0,
        raw.operation_index is None && raw.id == before + seq!['-'] + dec(n as nat) ==> raw.index() == n,
        raw.operation_index is None && parse_bounded(split(raw.id, '-').last(), u32::MAX as nat) is None
            ==> raw.index() == 0,
{
    lemma_dec_value(n as nat);
    dec_parses_back(n as nat);
    let digits = dec(n as nat);
    assert(!digits.contains('-')) by {
        if digits.contains('-') {
            let k = choose|k: int| 0 <= k < digits.len() && digits[k] == '-';
            assert(is_digit(digits[k]));
        }
    }
    the_last_piece_stands_behind_the_last_separator(before, '-', digits);
}

/// Paging goes on behind an event with its paging token, or with its id where it has none.
pub proof fn paging_goes_on_with_the_token_or_the_id(raw: RawView)
    ensures
        raw.paging_token is Some ==> raw.cursor() == raw.paging_token->0,
        raw.paging_token is None ==> raw.cursor() == raw.id,
        raw.contract_id is Some ==> raw.contract() == raw.contract_id->0,
        raw.contract_id is None ==> raw.contract() == Seq::<char>::empty(),
{
}

/// What a raw event shows is what its fields hold.
pub proof fn raw_events_show_their_fields(raw: RawEvent)
    ensures
        raw@.event_type == raw.event_type@,
        raw@.ledger == raw.ledger@,
        raw@.ledger_closed_at == raw.ledger_closed_at@,
        raw@.contract_id is Some <==> raw.contract_id is Some,
        raw.contract_id is Some ==> raw@.contract_id->0 == raw.contract_id->0@,
        raw@.id == raw.id@,
        raw@.paging_token is Some <==> raw.paging_token is Some,
        raw.paging_token is Some ==> raw@.paging_token->0 == raw.paging_token->0@,
        raw@.tx_hash == raw.tx_hash@,
        raw@.operation_index == raw.operation_index,
        raw@.topic.len() == raw.topic@.len(),
        forall|i: int| 0 <= i < raw.topic@.len() ==> #[trigger] raw@.topic[i] == raw.topic@[i]@,
        raw@.value == raw.value@,
        raw@.in_successful_contract_call == raw.in_successful_contract_call,
{
}

/// A type that is not known and a ledger that is no number are named in the refusal.
pub proof fn refused_events_name_their_field(raw: RawView, index_diagnostic: bool)
    ensures
        raw.event_type != "contract"@ && raw.event_type != "system"@ && raw.event_type
            != "diagnostic"@ ==> normalised(raw, index_diagnostic) == Err::<
            Option<NormalisedView>,
            Seq<char>,
        >("unknown event type: "@ + raw.event_type),
        raw.event_type == "contract"@ && raw.in_successful_contract_call && topics_decoded(raw.topic)
            is Ok && body_decoded(raw.value) is Ok && parse_bounded(raw.ledger, u64::MAX as nat)
            is None ==> normalised(raw, index_diagnostic) == Err::<Option<NormalisedView>, Seq<char>>(
            "invalid ledger: "@ + raw.ledger,
        ),
{
}

} // verus!
