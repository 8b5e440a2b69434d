//! Values of kinds that no well-behaved contract puts into an event. They are rendered like any
//! other, and whoever runs the indexer is told of them.
use vstd::prelude::*;

use crate::decode::decode_scval;
use crate::raw::body_decoded;
use crate::raw::decode_body;
use crate::raw::decode_topics;
use crate::raw::event_type_of;
use crate::raw::parse_event_type;
use crate::raw::skipped;
use crate::raw::topics_decoded;
use crate::raw::RawEvent;
use crate::raw::RawView;
use crate::scval::entry_views;
use crate::scval::sc_views;
use crate::scval::ScEntryView;
use crate::scval::ScMapEntry;
use crate::scval::ScVal;
use crate::scval::ScView;
use crate::text::views;
use crate::types::EventType;

verus! {

broadcast use vstd::string::group_string_axioms;

/// The counter that is raised by one for each notice.
pub const UNEXPECTED_SCVAL_VARIANT_TOTAL: &'static str = "trident_scval_unexpected_variant_total";

/// What a value was being rendered as.
#[derive(Debug, Clone, Copy, PartialEq, Eq, Structural)]
pub enum Rendering {
    Text,
    Json,
}

/// The kinds of values that should not appear in an event.
#[derive(Debug, Clone, Copy, PartialEq, Eq, Structural)]
pub enum Variant {
    ContractInstance,
    LedgerKeyContractInstance,
    LedgerKeyNonce,
}

/// That a value of such a kind was met.
#[derive(Debug, Clone, Copy, PartialEq, Eq, Structural)]
pub struct Notice {
    pub rendering: Rendering,
    pub variant: Variant,
}

impl Rendering {
    /// The name of the function that renders so.
    pub open spec fn name(self) -> Seq<char> {
        match self {
            Rendering::Text => "scval_to_string"@,
            Rendering::Json => "scval_to_json"@,
        }
    }

    /// The name of the function that renders so.
    pub fn as_str(self) -> (r: &'static str)
        ensures
            r@ == self.name(),
    {
        match self {
            Rendering::Text => "scval_to_string",
            Rendering::Json => "scval_to_json",
        }
    }
}

impl Variant {
    /// The name of the kind.
    pub open spec fn name(self) -> Seq<char> {
        match self {
            Variant::ContractInstance => "ContractInstance"@,
            Variant::LedgerKeyContractInstance => "LedgerKeyContractInstance"@,
            Variant::LedgerKeyNonce => "LedgerKeyNonce"@,
        }
    }

    /// The name of the kind.
    pub fn as_str(self) -> (r: &'static str)
        ensures
            r@ == self.name(),
    {
        match self {
            Variant::ContractInstance => "ContractInstance",
            Variant::LedgerKeyContractInstance => "LedgerKeyContractInstance",
            Variant::LedgerKeyNonce => "LedgerKeyNonce",
        }
    }
}

/// The one notice of a value itself.
pub open spec fn notice(rendering: Rendering, variant: Variant) -> Seq<Notice> {
    seq![Notice { rendering, variant }]
}

/// The notices of rendering a value as text. What a contract instance stores is not rendered.
pub open spec fn text_notices(v: ScView) -> Seq<Notice>
    decreases v,
{
    match v {
        ScView::Vec(Some(items)) => items_text_notices(items),
        ScView::Mapping(Some(entries)) => entries_text_notices(entries),
        ScView::ContractInstance { .. } => notice(Rendering::Text, Variant::ContractInstance),
        ScView::LedgerKeyContractInstance => notice(
            Rendering::Text,
            Variant::LedgerKeyContractInstance,
        ),
        ScView::LedgerKeyNonce(_) => notice(Rendering::Text, Variant::LedgerKeyNonce),
        _ => Seq::empty(),
    }
}

/// The notices of rendering values as texts, one after the other.
pub open spec fn items_text_notices(items: Seq<ScView>) -> Seq<Notice>
    decreases items,
{
    if items.len() == 0 {
        Seq::empty()
    } else {
        items_text_notices(items.drop_last()) + text_notices(items.last())
    }
}

/// The notices of rendering the keys and the values of a map as texts.
pub open spec fn entries_text_notices(entries: Seq<ScEntryView>) -> Seq<Notice>
    decreases entries,
{
    if entries.len() == 0 {
        Seq::empty()
    } else {
        entries_text_notices(entries.drop_last()) + text_notices(entries.last().key)
            + text_notices(entries.last().val)
    }
}

/// The notices of rendering a value as JSON. The keys of a map become texts.
pub open spec fn json_notices(v: ScView) -> Seq<Notice>
    decreases v,
{
    match v {
        ScView::Vec(Some(items)) => items_json_notices(items),
        ScView::Mapping(Some(entries)) => entries_json_notices(entries),
        ScView::ContractInstance { storage, .. } => notice(
            Rendering::Json,
            Variant::ContractInstance,
        ) + match storage {
            Some(entries) => entries_json_notices(entries),
            None => Seq::empty(),
        },
        ScView::LedgerKeyContractInstance => notice(
            Rendering::Json,
            Variant::LedgerKeyContractInstance,
        ),
        ScView::LedgerKeyNonce(_) => notice(Rendering::Json, Variant::LedgerKeyNonce),
        _ => Seq::empty(),
    }
}

/// The notices of rendering values as JSON, one after the other.
pub open spec fn items_json_notices(items: Seq<ScView>) -> Seq<Notice>
    decreases items,
{
    if items.len() == 0 {
        Seq::empty()
    } else {
        items_json_notices(items.drop_last()) + json_notices(items.last())
    }
}

/// The notices of rendering the entries of a map as the members of an object.
pub open spec fn entries_json_notices(entries: Seq<ScEntryView>) -> Seq<Notice>
    decreases entries,
{
    if entries.len() == 0 {
        Seq::empty()
    } else {
        entries_json_notices(entries.drop_last()) + text_notices(entries.last().key)
            + json_notices(entries.last().val)
    }
}

fn note(out: &mut Vec<Notice>, rendering: Rendering, variant: Variant)
    ensures
        final(out)@ == old(out)@ + notice(rendering, variant),
{
    out.push(Notice { rendering, variant });
}

fn note_text(out: &mut Vec<Notice>, val: &ScVal)
    ensures
        final(out)@ == old(out)@ + text_notices(val@),
    decreases val,
{
    match val {
        ScVal::Vec(Some(items)) => {
            proof {
                assert(decreases_to!(*val => val->Vec_0));
                assert(decreases_to!(val->Vec_0 => val->Vec_0->0));
            }
            note_texts(out, items);
        },
        ScVal::Mapping(Some(entries)) => {
            let ghost before = out@;
            let mut i: usize = 0;
            assert(entries@.take(0) =~= Seq::<ScMapEntry>::empty());
            while i < entries.len()
                invariant
                    i <= entries.len(),
                    *val == ScVal::Mapping(Some(*entries)),
                    out@ == before + entries_text_notices(entry_views(entries@.take(i as int))),
                decreases entries.len() - i,
            {
                let ghost seen = out@;
                proof {
                    assert(entries@.take(i + 1).drop_last() =~= entries@.take(i as int));
                    let now = entry_views(entries@.take(i + 1));
                    assert(now.drop_last() =~= entry_views(entries@.take(i as int)));
                    assert(decreases_to!(*val => val->Mapping_0));
                    assert(decreases_to!(val->Mapping_0 => val->Mapping_0->0));
                    assert(decreases_to!(*entries => entries@));
                    assert(decreases_to!(entries@ => entries@[i as int]));
                    assert(decreases_to!(entries@[i as int] => entries@[i as int].key));
                    assert(decreases_to!(entries@[i as int] => entries@[i as int].val));
                }
                note_text(out, &entries[i].key);
                note_text(out, &entries[i].val);
                assert(out@ =~= before + entries_text_notices(entry_views(entries@.take(i + 1))));
                i = i + 1;
            }
            assert(entries@.take(i as int) =~= entries@);
        },
        ScVal::ContractInstance { .. } => note(out, Rendering::Text, Variant::ContractInstance),
        ScVal::LedgerKeyContractInstance => note(
            out,
            Rendering::Text,
            Variant::LedgerKeyContractInstance,
        ),
        ScVal::LedgerKeyNonce(_) => note(out, Rendering::Text, Variant::LedgerKeyNonce),
        _ => {},
    }
}

fn note_texts(out: &mut Vec<Notice>, items: &Vec<ScVal>)
    ensures
        final(out)@ == old(out)@ + items_text_notices(sc_views(items@)),
    decreases items,
{
    let ghost before = out@;
    let mut i: usize = 0;
    assert(items@.take(0) =~= Seq::<ScVal>::empty());
    while i < items.len()
        invariant
            i <= items.len(),
            out@ == before + items_text_notices(sc_views(items@.take(i as int))),
        decreases items.len() - i,
    {
        proof {
            assert(items@.take(i + 1).drop_last() =~= items@.take(i as int));
            let now = sc_views(items@.take(i + 1));
            assert(now.drop_last() =~= sc_views(items@.take(i as int)));
            assert(decreases_to!(*items => items@));
            assert(decreases_to!(items@ => items@[i as int]));
        }
        note_text(out, &items[i]);
        assert(out@ =~= before + items_text_notices(sc_views(items@.take(i + 1))));
        i = i + 1;
    }
    assert(items@.take(i as int) =~= items@);
}

fn note_json(out: &mut Vec<Notice>, val: &ScVal)
    ensures
        final(out)@ == old(out)@ + json_notices(val@),
    decreases val,
{
    match val {
        ScVal::Vec(Some(items)) => {
            let ghost before = out@;
            let mut i: usize = 0;
            assert(items@.take(0) =~= Seq::<ScVal>::empty());
            while i < items.len()
                invariant
                    i <= items.len(),
                    *val == ScVal::Vec(Some(*items)),
                    out@ == before + items_json_notices(sc_views(items@.take(i as int))),
                decreases items.len() - i,
            {
                proof {
                    assert(items@.take(i + 1).drop_last() =~= items@.take(i as int));
                    let now = sc_views(items@.take(i + 1));
                    assert(now.drop_last() =~= sc_views(items@.take(i as int)));
                    assert(decreases_to!(*val => val->Vec_0));
                    assert(decreases_to!(val->Vec_0 => val->Vec_0->0));
                    assert(decreases_to!(*items => items@));
                    assert(decreases_to!(items@ => items@[i as int]));
                }
                note_json(out, &items[i]);
                assert(out@ =~= before + items_json_notices(sc_views(items@.take(i + 1))));
                i = i + 1;
            }
            assert(items@.take(i as int) =~= items@);
        },
        ScVal::Mapping(Some(entries)) => {
            proof {
                assert(decreases_to!(*val => val->Mapping_0));
                assert(decreases_to!(val->Mapping_0 => val->Mapping_0->0));
            }
            note_members(out, entries);
        },
        ScVal::ContractInstance { storage, .. } => {
            let ghost before = out@;
            note(out, Rendering::Json, Variant::ContractInstance);
            match storage {
                Some(entries) => {
                    proof {
                        assert(decreases_to!(*val => val->ContractInstance_storage));
                        assert(decreases_to!(val->ContractInstance_storage =>
                            val->ContractInstance_storage->0));
                    }
                    note_members(out, entries);
                },
                None => {},
            }
            assert(out@ =~= before + json_notices(val@));
        },
        ScVal::LedgerKeyContractInstance => note(
            out,
            Rendering::Json,
            Variant::LedgerKeyContractInstance,
        ),
        ScVal::LedgerKeyNonce(_) => note(out, Rendering::Json, Variant::LedgerKeyNonce),
        _ => {},
    }
}

fn note_members(out: &mut Vec<Notice>, entries: &Vec<ScMapEntry>)
    ensures
        final(out)@ == old(out)@ + entries_json_notices(entry_views(entries@)),
    decreases entries,
{
    let ghost before = out@;
    let mut i: usize = 0;
    assert(entries@.take(0) =~= Seq::<ScMapEntry>::empty());
    while i < entries.len()
        invariant
            i <= entries.len(),
            out@ == before + entries_json_notices(entry_views(entries@.take(i as int))),
        decreases entries.len() - i,
    {
        proof {
            assert(entries@.take(i + 1).drop_last() =~= entries@.take(i as int));
            let now = entry_views(entries@.take(i + 1));
            assert(now.drop_last() =~= entry_views(entries@.take(i as int)));
            assert(decreases_to!(*entries => entries@));
            assert(decreases_to!(entries@ => entries@[i as int]));
            assert(decreases_to!(entries@[i as int] => entries@[i as int].val));
        }
        note_text(out, &entries[i].key);
        note_json(out, &entries[i].val);
        assert(out@ =~= before + entries_json_notices(entry_views(entries@.take(i + 1))));
        i = i + 1;
    }
    assert(entries@.take(i as int) =~= entries@);
}

/// The notices of rendering a value as text.
pub fn unexpected_in_text(val: &ScVal) -> (r: Vec<Notice>)
    ensures
        r@ == text_notices(val@),
{
    let mut out: Vec<Notice> = Vec::new();
    note_text(&mut out, val);
    out
}

/// The notices of rendering a value as JSON.
pub fn unexpected_in_json(val: &ScVal) -> (r: Vec<Notice>)
    ensures
        r@ == json_notices(val@),
{
    let mut out: Vec<Notice> = Vec::new();
    note_json(&mut out, val);
    out
}

/// The notices of parsing an event whose topics are rendered once they are all decoded: none of one
/// that is skipped, else those of its topics, as far as they all decode, and then those of its body,
/// as far as that decodes.
pub open spec fn event_notices(raw: RawView, index_diagnostic: bool) -> Seq<Notice> {
    match event_type_of(raw.event_type) {
        None => Seq::empty(),
        Some(event_type) => if skipped(event_type, raw, index_diagnostic) {
            Seq::empty()
        } else {
            match topics_decoded(raw.topic) {
                Err(_) => Seq::empty(),
                Ok(topics) => items_text_notices(topics) + match body_decoded(raw.value) {
                    Err(_) => Seq::empty(),
                    Ok(body) => json_notices(body),
                },
            }
        },
    }
}

/// The notices of parsing an event whose topics are rendered once they are all decoded.
pub fn unexpected_in_event(raw: &RawEvent, index_diagnostic: bool) -> (r: Vec<Notice>)
    ensures
        r@ == event_notices(raw@, index_diagnostic),
{
    let mut out: Vec<Notice> = Vec::new();
    let event_type = match parse_event_type(raw.event_type.as_str()) {
        Ok(t) => t,
        Err(_) => return out,
    };
    if (event_type == EventType::Diagnostic && !index_diagnostic)
        || !raw.in_successful_contract_call {
        return out;
    }
    if let Ok(topics) = decode_topics(&raw.topic) {
        note_texts(&mut out, &topics);
        if let Ok(body) = decode_body(raw.value.as_str()) {
            note_json(&mut out, &body);
        }
    }
    assert(out@ =~= event_notices(raw@, index_diagnostic));
    out
}

/// The notices of topics that are rendered one by one as they are decoded: those of the topics
/// before the first that does not decode.
pub open spec fn leading_notices(topics: Seq<Seq<char>>) -> Seq<Notice>
    decreases topics.len(),
{
    if topics.len() == 0 {
        Seq::empty()
    } else {
        let before = leading_notices(topics.drop_last());
        match topics_decoded(topics) {
            Err(_) => before,
            Ok(vals) => before + text_notices(vals.last()),
        }
    }
}

/// The notices of parsing an event whose topics are rendered one by one: none of one that is
/// skipped, else those of its topics before the first that does not decode, and, where they all do,
/// those of its body, as far as that decodes.
pub open spec fn walked_notices(raw: RawView, index_diagnostic: bool) -> Seq<Notice> {
    match event_type_of(raw.event_type) {
        None => Seq::empty(),
        Some(event_type) => if skipped(event_type, raw, index_diagnostic) {
            Seq::empty()
        } else {
            leading_notices(raw.topic) + match (topics_decoded(raw.topic), body_decoded(raw.value)) {
                (Ok(_), Ok(body)) => json_notices(body),
                _ => Seq::empty(),
            }
        },
    }
}

/// Where all topics of an event decode, it does not matter whether they are rendered one by one or
/// all together.
pub proof fn both_orders_notice_the_same(raw: RawView, index_diagnostic: bool)
    requires
        topics_decoded(raw.topic) is Ok,
    ensures
        walked_notices(raw, index_diagnostic) == event_notices(raw, index_diagnostic),
{
    lemma_leading_notices(raw.topic);
    assert(walked_notices(raw, index_diagnostic) =~= event_notices(raw, index_diagnostic));
}

proof fn lemma_leading_notices(topics: Seq<Seq<char>>)
    requires
        topics_decoded(topics) is Ok,
    ensures
        leading_notices(topics) == items_text_notices(topics_decoded(topics)->Ok_0),
    decreases topics.len(),
{
    if topics.len() > 0 {
        lemma_leading_notices(topics.drop_last());
        let vals = topics_decoded(topics)->Ok_0;
        assert(vals.drop_last() =~= topics_decoded(topics.drop_last())->Ok_0);
    }
}

proof fn lemma_failed_topic_ends(topics: Seq<Seq<char>>, k: int)
    requires
        0 <= k <= topics.len(),
        topics_decoded(topics.take(k)) is Err,
    ensures
        topics_decoded(topics) is Err,
        leading_notices(topics) == leading_notices(topics.take(k)),
    decreases topics.len() - k,
{
    if k == topics.len() {
        assert(topics.take(k) =~= topics);
    } else {
        assert(topics.take(k + 1).drop_last() =~= topics.take(k));
        lemma_failed_topic_ends(topics, k + 1);
    }
}

/// The notices of parsing an event whose topics are rendered one by one.
pub fn unexpected_in_walk(raw: &RawEvent, index_diagnostic: bool) -> (r: Vec<Notice>)
    ensures
        r@ == walked_notices(raw@, index_diagnostic),
{
    let mut out: Vec<Notice> = Vec::new();
    let event_type = match parse_event_type(raw.event_type.as_str()) {
        Ok(t) => t,
        Err(_) => return out,
    };
    if (event_type == EventType::Diagnostic && !index_diagnostic)
        || !raw.in_successful_contract_call {
        return out;
    }
    let ghost all = raw@.topic;
    assert(all.take(0) =~= Seq::<Seq<char>>::empty());
    let mut i: usize = 0;
    while i < raw.topic.len()
        invariant
            i <= raw.topic.len(),
            all == raw@.topic,
            all == views(raw.topic@),
            topics_decoded(all.take(i as int)) is Ok,
            out@ == leading_notices(all.take(i as int)),
            event_type_of(raw@.event_type) == Some(event_type),
            !skipped(event_type, raw@, index_diagnostic),
        decreases raw.topic.len() - i,
    {
        assert(all.take(i + 1).drop_last() =~= all.take(i as int));
        assert(all.take(i + 1).last() == raw.topic@[i as int]@);
        match decode_scval(raw.topic[i].as_str()) {
            Ok(val) => {
                note_text(&mut out, &val);
            },
            Err(_) => {
                proof {
                    lemma_failed_topic_ends(all, i + 1);
                }
                assert(out@ =~= walked_notices(raw@, index_diagnostic));
                return out;
            },
        }
        i = i + 1;
    }
    assert(all.take(i as int) =~= all);
    if let Ok(body) = decode_body(raw.value.as_str()) {
        note_json(&mut out, &body);
    }
    assert(out@ =~= walked_notices(raw@, index_diagnostic));
    out
}

/// The notices of values that are rendered one after the other are those of each, in order.
pub proof fn notices_of_items_add_up(a: Seq<ScView>, b: Seq<ScView>, v: ScView)
    ensures
        text_notices(ScView::Vec(Some(a + b))) == text_notices(ScView::Vec(Some(a)))
            + text_notices(ScView::Vec(Some(b))),
        json_notices(ScView::Vec(Some(a + b))) == json_notices(ScView::Vec(Some(a)))
            + json_notices(ScView::Vec(Some(b))),
        text_notices(ScView::Vec(Some(seq![v]))) == text_notices(v),
        json_notices(ScView::Vec(Some(seq![v]))) == json_notices(v),
    decreases b.len(),
{
    assert(seq![v].drop_last() =~= Seq::<ScView>::empty());
    assert(items_text_notices(Seq::<ScView>::empty()) =~= Seq::<Notice>::empty());
    assert(items_json_notices(Seq::<ScView>::empty()) =~= Seq::<Notice>::empty());
    assert(items_text_notices(seq![v]) =~= text_notices(v));
    assert(items_json_notices(seq![v]) =~= json_notices(v));
    if b.len() == 0 {
        assert(a + b =~= a);
        assert(b =~= Seq::<ScView>::empty());
        assert(items_text_notices(a) + items_text_notices(b) =~= items_text_notices(a));
        assert(items_json_notices(a) + items_json_notices(b) =~= items_json_notices(a));
    } else {
        notices_of_items_add_up(a, b.drop_last(), v);
        assert((a + b).drop_last() =~= a + b.drop_last());
        assert((a + b).last() == b.last());
        assert(items_text_notices(a + b) =~= items_text_notices(a) + items_text_notices(b));
        assert(items_json_notices(a + b) =~= items_json_notices(a) + items_json_notices(b));
    }
}

/// The notices of a map are those of its entries in order, of each entry those of the key, which
/// becomes a text either way, and then those of the value.
pub proof fn notices_of_entries_add_up(a: Seq<ScEntryView>, b: Seq<ScEntryView>, entry: ScEntryView)
    ensures
        text_notices(ScView::Mapping(Some(a + b))) == text_notices(ScView::Mapping(Some(a)))
            + text_notices(ScView::Mapping(Some(b))),
        json_notices(ScView::Mapping(Some(a + b))) == json_notices(ScView::Mapping(Some(a)))
            + json_notices(ScView::Mapping(Some(b))),
        text_notices(ScView::Mapping(Some(seq![entry]))) == text_notices(entry.key) + text_notices(
            entry.val,
        ),
        json_notices(ScView::Mapping(Some(seq![entry]))) == text_notices(entry.key) + json_notices(
            entry.val,
        ),
    decreases b.len(),
{
    assert(seq![entry].drop_last() =~= Seq::<ScEntryView>::empty());
    assert(entries_text_notices(Seq::<ScEntryView>::empty()) =~= Seq::<Notice>::empty());
    assert(entries_json_notices(Seq::<ScEntryView>::empty()) =~= Seq::<Notice>::empty());
    assert(entries_text_notices(seq![entry]) =~= text_notices(entry.key) + text_notices(entry.val));
    assert(entries_json_notices(seq![entry]) =~= text_notices(entry.key) + json_notices(entry.val));
    if b.len() == 0 {
        assert(a + b =~= a);
        assert(b =~= Seq::<ScEntryView>::empty());
        assert(entries_text_notices(a) + entries_text_notices(b) =~= entries_text_notices(a));
        assert(entries_json_notices(a) + entries_json_notices(b) =~= entries_json_notices(a));
    } else {
        notices_of_entries_add_up(a, b.drop_last(), entry);
        assert((a + b).drop_last() =~= a + b.drop_last());
        assert((a + b).last() == b.last());
        assert(entries_text_notices(a + b) =~= entries_text_notices(a) + entries_text_notices(b));
        assert(entries_json_notices(a + b) =~= entries_json_notices(a) + entries_json_notices(b));
    }
}

/// A value gives a notice of itself just where it is a contract instance or a key of the ledger,
/// and the notice names its kind and how it was rendered. Of an instance that becomes JSON, what it
/// stores is looked at too; of one that becomes a text it is not.
pub proof fn only_three_kinds_are_noticed(v: ScView, storage: Seq<ScEntryView>)
    ensures
        v matches ScView::ContractInstance { .. } ==> text_notices(v) == seq![
            Notice { rendering: Rendering::Text, variant: Variant::ContractInstance },
        ],
        v matches ScView::ContractInstance { storage: s, .. } ==> (s is None ==> json_notices(v)
            == seq![Notice { rendering: Rendering::Json, variant: Variant::ContractInstance }]),
        v matches ScView::ContractInstance { storage: s, .. } ==> (s == Some(storage)
            ==> json_notices(v) == seq![
            Notice { rendering: Rendering::Json, variant: Variant::ContractInstance },
        ] + json_notices(ScView::Mapping(Some(storage)))),
        v is LedgerKeyContractInstance ==> text_notices(v) == seq![
            Notice { rendering: Rendering::Text, variant: Variant::LedgerKeyContractInstance },
        ] && json_notices(v) == seq![
            Notice { rendering: Rendering::Json, variant: Variant::LedgerKeyContractInstance },
        ],
        v is LedgerKeyNonce ==> text_notices(v) == seq![
            Notice { rendering: Rendering::Text, variant: Variant::LedgerKeyNonce },
        ] && json_notices(v) == seq![
            Notice { rendering: Rendering::Json, variant: Variant::LedgerKeyNonce },
        ],
        !(v is Vec || v is Mapping || v is ContractInstance || v is LedgerKeyContractInstance
            || v is LedgerKeyNonce) ==> text_notices(v).len() == 0 && json_notices(v).len() == 0,
{
    if let ScView::ContractInstance { storage: s, .. } = v {
        if s is None {
            assert(json_notices(v) =~= seq![
                Notice { rendering: Rendering::Json, variant: Variant::ContractInstance },
            ]);
        }
    }
}

/// An event that is left out, of an unknown type or with a topic that does not decode gives no
/// notice of its body. Any other gives those of its topics as texts and then those of its body as
/// JSON, where that decodes.
pub proof fn notices_of_events_are_those_of_topics_and_body(
    raw: RawView,
    index_diagnostic: bool,
    topics: Seq<ScView>,
    body: ScView,
)
    ensures
        event_type_of(raw.event_type) is None ==> event_notices(raw, index_diagnostic).len() == 0,
        !raw.in_successful_contract_call ==> event_notices(raw, index_diagnostic).len() == 0
            && walked_notices(raw, index_diagnostic).len() == 0,
        event_type_of(raw.event_type) == Some(EventType::Diagnostic) && !index_diagnostic
            ==> event_notices(raw, index_diagnostic).len() == 0 && walked_notices(
            raw,
            index_diagnostic,
        ).len() == 0,
        event_type_of(raw.event_type) is Some && raw.in_successful_contract_call && (event_type_of(
            raw.event_type,
        ) != Some(EventType::Diagnostic) || index_diagnostic) && topics_decoded(raw.topic) == Ok::<
            Seq<ScView>,
            Seq<char>,
        >(topics) ==> {
            &&& body_decoded(raw.value) == Ok::<ScView, Seq<char>>(body) ==> event_notices(
                raw,
                index_diagnostic,
            ) == text_notices(ScView::Vec(Some(topics))) + json_notices(body)
            &&& body_decoded(raw.value) is Err ==> event_notices(raw, index_diagnostic)
                == text_notices(ScView::Vec(Some(topics)))
        },
        topics_decoded(raw.topic) is Err ==> event_notices(raw, index_diagnostic).len() == 0,
{
    if body_decoded(raw.value) is Err {
        assert(text_notices(ScView::Vec(Some(topics))) + Seq::<Notice>::empty() =~= text_notices(
            ScView::Vec(Some(topics)),
        ));
    }
}

/// Kinds and renderings go by these names.
pub proof fn notices_go_by_these_names()
    ensures
        Rendering::Text.name() == "scval_to_string"@,
        Rendering::Json.name() == "scval_to_json"@,
        Variant::ContractInstance.name() == "ContractInstance"@,
        Variant::LedgerKeyContractInstance.name() == "LedgerKeyContractInstance"@,
        Variant::LedgerKeyNonce.name() == "LedgerKeyNonce"@,
{
}

} // verus!
