//! The filters that narrow a `getEvents` request on the server.
//!
//! The RPC caps both the filters of a request and the contracts of a filter, so a large allowlist
//! is spread over several filters, and one that is too large for that is not sent at all.
use stellar_xdr::curr::Limits;
use stellar_xdr::curr::ScSymbol;
use stellar_xdr::curr::WriteXdr;
use vstd::prelude::*;

use crate::codec::base64_encode;
use crate::codec::base64_encoded;
use crate::json::json_of_texts;
use crate::json::member_of;
use crate::json::push_item;
use crate::json::set_member;
use crate::json::Json;
use crate::json::JsonMember;
use crate::json::JsonView;
use crate::order::lists_can_be_sorted;
use crate::order::sorted;
use crate::order::sorted_lists_are_unique;
use crate::order::sorted_unique;
use crate::text::char_views;
use crate::text::chars_of;
use crate::text::clone_strings;
use crate::text::dec;
use crate::text::push_dec;
use crate::text::quote;
use crate::text::quoted;
use crate::text::same;
use crate::text::split;
use crate::text::split_chars;
use crate::text::string_of;
use crate::text::trim;
use crate::text::trim_chars;
use crate::text::views;

verus! {

broadcast use vstd::string::group_string_axioms;

/// The most contracts that a filter may name.
pub const MAX_CONTRACT_IDS_PER_FILTER: usize = 5;

/// The most filters that a request may hold.
pub const MAX_FILTERS_PER_REQUEST: usize = 5;

/// The most contracts that the filters of a request can name.
pub const MAX_FILTERABLE_CONTRACTS: usize = 25;

/// A filter of a `getEvents` request.
#[derive(Debug, PartialEq, Eq)]
pub struct EventFilter {
    pub event_type: &'static str,
    pub contract_ids: Vec<String>,
    pub topics: Vec<Vec<String>>,
}

/// What a filter is.
pub struct FilterView {
    pub event_type: Seq<char>,
    pub contract_ids: Seq<Seq<char>>,
    pub topics: Seq<Seq<Seq<char>>>,
}

/// The texts of lists of strings.
pub open spec fn nested_views(v: Seq<Vec<String>>) -> Seq<Seq<Seq<char>>> {
    Seq::new(v.len(), |i: int| views(v[i]@))
}

impl View for EventFilter {
    type V = FilterView;

    open spec fn view(&self) -> FilterView {
        FilterView {
            event_type: self.event_type@,
            contract_ids: views(self.contract_ids@),
            topics: nested_views(self.topics@),
        }
    }
}

/// A filter as a request holds it: a list that is empty is left out.
pub open spec fn filter_json(filter: FilterView) -> JsonView {
    let typed = Map::<Seq<char>, JsonView>::empty().insert(
        "type"@,
        JsonView::String(filter.event_type),
    );
    let narrowed = if filter.contract_ids.len() == 0 {
        typed
    } else {
        typed.insert("contractIds"@, crate::json::texts_json(filter.contract_ids))
    };
    JsonView::Object(
        if filter.topics.len() == 0 {
            narrowed
        } else {
            narrowed.insert(
                "topics"@,
                JsonView::Array(
                    filter.topics.map_values(|p: Seq<Seq<char>>| crate::json::texts_json(p)),
                ),
            )
        },
    )
}

impl EventFilter {
    /// The filter as a request holds it.
    pub fn to_json(&self) -> (r: Json)
        ensures
            r@ == filter_json(self@),
    {
        let mut members: Vec<JsonMember> = Vec::new();
        set_member(&mut members, "type".to_owned(), Json::String(self.event_type.to_owned()));
        if self.contract_ids.len() > 0 {
            let ids = json_of_texts(self.contract_ids.as_slice());
            set_member(&mut members, "contractIds".to_owned(), ids);
        }
        if self.topics.len() > 0 {
            let ghost all = self@.topics.map_values(|p: Seq<Seq<char>>| crate::json::texts_json(p));
            let mut patterns: Vec<Json> = Vec::new();
            let mut i: usize = 0;
            assert(crate::json::json_views(patterns@) =~= all.take(0));
            while i < self.topics.len()
                invariant
                    i <= self.topics.len(),
                    all == self@.topics.map_values(|p: Seq<Seq<char>>| crate::json::texts_json(p)),
                    crate::json::json_views(patterns@) == all.take(i as int),
                decreases self.topics.len() - i,
            {
                push_item(&mut patterns, json_of_texts(self.topics[i].as_slice()));
                assert(all.take(i + 1) =~= all.take(i as int).push(all[i as int]));
                i = i + 1;
            }
            assert(all.take(i as int) =~= all);
            set_member(&mut members, "topics".to_owned(), Json::Array(patterns));
        }
        Json::Object(members)
    }
}

/// The filters of a request.
#[derive(Debug, PartialEq, Eq)]
pub struct FilterPlan {
    pub filters: Vec<EventFilter>,
    /// Whether there is an allowlist that the filters cannot express, so that none is sent.
    pub degraded: bool,
}

/// What the filters of a request are.
pub struct PlanView {
    pub filters: Seq<FilterView>,
    pub degraded: bool,
}

/// What filters are.
pub open spec fn filter_views(filters: Seq<EventFilter>) -> Seq<FilterView> {
    Seq::new(filters.len(), |i: int| filters[i]@)
}

impl View for FilterPlan {
    type V = PlanView;

    open spec fn view(&self) -> PlanView {
        PlanView { filters: filter_views(self.filters@), degraded: self.degraded }
    }
}

/// The plan that indexes everything.
pub open spec fn index_all_plan() -> PlanView {
    PlanView { filters: Seq::empty(), degraded: false }
}

impl FilterPlan {
    /// The plan that indexes everything: no filters.
    pub fn index_all() -> (r: Self)
        ensures
            r@ == index_all_plan(),
    {
        let plan = FilterPlan { filters: Vec::new(), degraded: false };
        assert(plan@.filters =~= Seq::<FilterView>::empty());
        plan
    }
}

/// Whether `ids` are the texts of a list, in order and each once.
pub open spec fn is_sorted_set_of(ids: Seq<Seq<char>>, texts: Seq<Seq<char>>) -> bool {
    sorted(ids) && forall|s: Seq<char>| #[trigger] ids.contains(s) <==> texts.contains(s)
}

/// The texts of a list, in order and each once.
pub open spec fn sorted_set(texts: Seq<Seq<char>>) -> Seq<Seq<char>> {
    choose|ids: Seq<Seq<char>>| is_sorted_set_of(ids, texts)
}

/// There is only one way to put the texts of a list in order.
pub proof fn sorted_set_is(texts: Seq<Seq<char>>, ids: Seq<Seq<char>>)
    requires
        is_sorted_set_of(ids, texts),
    ensures
        sorted_set(texts) == ids,
{
    let chosen = sorted_set(texts);
    assert(is_sorted_set_of(chosen, texts));
    assert forall|s: Seq<char>| chosen.contains(s) <==> ids.contains(s) by {
        assert(chosen.contains(s) <==> texts.contains(s));
    }
    sorted_lists_are_unique(chosen, ids);
}

/// The `i`th filter for contracts in order: five of them, the last filter what is left.
pub open spec fn shard(ids: Seq<Seq<char>>, topics: Seq<Seq<Seq<char>>>, i: int) -> FilterView {
    FilterView {
        event_type: "contract"@,
        contract_ids: ids.subrange(
            5 * i,
            if 5 * i + 5 <= ids.len() {
                5 * i + 5
            } else {
                ids.len() as int
            },
        ),
        topics,
    }
}

/// The plan for contracts in order.
pub open spec fn plan_of(ids: Seq<Seq<char>>, topics: Seq<Seq<Seq<char>>>) -> PlanView {
    if ids.len() == 0 {
        index_all_plan()
    } else if ids.len() > MAX_FILTERABLE_CONTRACTS {
        PlanView { filters: Seq::empty(), degraded: true }
    } else {
        PlanView {
            filters: Seq::new((ids.len() + 4) as nat / 5, |i: int| shard(ids, topics, i)),
            degraded: false,
        }
    }
}

/// The plan for an allowlist. No allowlist and an empty one both index everything.
pub open spec fn filter_plan(
    allowlist: Option<Seq<Seq<char>>>,
    topics: Seq<Seq<Seq<char>>>,
) -> PlanView {
    match allowlist {
        None => index_all_plan(),
        Some(list) => plan_of(sorted_set(list), topics),
    }
}

fn clone_topics(topics: &[Vec<String>]) -> (r: Vec<Vec<String>>)
    ensures
        nested_views(r@) == nested_views(topics@),
{
    let mut out: Vec<Vec<String>> = Vec::new();
    let mut i: usize = 0;
    while i < topics.len()
        invariant
            i <= topics.len(),
            out@.len() == i,
            forall|k: int| 0 <= k < i ==> views((#[trigger] out@[k])@) == views(topics@[k]@),
        decreases topics.len() - i,
    {
        out.push(clone_strings(&topics[i]));
        i = i + 1;
    }
    assert(nested_views(out@) =~= nested_views(topics@));
    out
}

/// Builds the filters for an allowlist, taken as a set, and for topic patterns, which are attached
/// to every filter.
pub fn build_event_filters(allowlist: Option<&[String]>, topics: &[Vec<String>]) -> (r: FilterPlan)
    ensures
        r@ == filter_plan(
            match allowlist {
                Some(list) => Some(views(list@)),
                None => None,
            },
            nested_views(topics@),
        ),
{
    let ids = match allowlist {
        None => return FilterPlan::index_all(),
        Some(list) => {
            let ids = sorted_unique(list);
            proof {
                sorted_set_is(views(list@), views(ids@));
            }
            ids
        },
    };
    if ids.len() == 0 {
        return FilterPlan::index_all();
    }
    let mut filters: Vec<EventFilter> = Vec::new();
    if ids.len() > MAX_FILTERABLE_CONTRACTS {
        assert(filter_views(filters@) =~= Seq::<FilterView>::empty());
        return FilterPlan { filters, degraded: true };
    }
    let ghost all = views(ids@);
    let ghost patterns = nested_views(topics@);
    let mut i: usize = 0;
    while i < ids.len()
        invariant
            i <= ids.len() <= 25,
            ids.len() > 0,
            all == views(ids@),
            patterns == nested_views(topics@),
            i % 5 == 0 || i == ids.len(),
            filters@.len() == (i + 4) / 5,
            forall|k: int|
                0 <= k < filters@.len() ==> (#[trigger] filters@[k])@ == shard(all, patterns, k),
        decreases ids.len() - i,
    {
        let end: usize = if i + MAX_CONTRACT_IDS_PER_FILTER <= ids.len() {
            i + MAX_CONTRACT_IDS_PER_FILTER
        } else {
            ids.len()
        };
        let mut contract_ids: Vec<String> = Vec::new();
        let mut j: usize = i;
        while j < end
            invariant
                i <= j <= end <= ids.len(),
                all == views(ids@),
                views(contract_ids@) == all.subrange(i as int, j as int),
            decreases end - j,
        {
            let ghost earlier = views(contract_ids@);
            contract_ids.push(ids[j].clone());
            assert(views(contract_ids@) =~= earlier.push(all[j as int]));
            assert(all.subrange(i as int, j + 1) =~= all.subrange(i as int, j as int).push(
                all[j as int],
            ));
            j = j + 1;
        }
        let ghost n = filters@.len();
        assert(5 * n == i);
        filters.push(
            EventFilter { event_type: "contract", contract_ids, topics: clone_topics(topics) },
        );
        assert(filters@[n as int]@ == shard(all, patterns, n as int));
        i = end;
    }
    let plan = FilterPlan { filters, degraded: false };
    assert(plan@.filters =~= plan_of(all, patterns).filters);
    plan
}

/// An empty allowlist indexes everything, as no allowlist does.
pub proof fn empty_allowlists_index_everything(topics: Seq<Seq<Seq<char>>>)
    ensures
        filter_plan(None, topics) == index_all_plan(),
        filter_plan(Some(Seq::empty()), topics) == index_all_plan(),
{
    let none = Seq::<Seq<char>>::empty();
    assert(is_sorted_set_of(none, none));
    sorted_set_is(none, none);
}

/// The plan depends on the contracts of an allowlist alone, not on their order nor on how often
/// each is listed.
pub proof fn plans_ignore_the_order_of_the_allowlist(
    a: Seq<Seq<char>>,
    b: Seq<Seq<char>>,
    topics: Seq<Seq<Seq<char>>>,
)
    requires
        forall|s: Seq<char>| a.contains(s) <==> b.contains(s),
    ensures
        filter_plan(Some(a), topics) == filter_plan(Some(b), topics),
{
    let ids = lists_can_be_sorted(a);
    assert(is_sorted_set_of(ids, a));
    assert(is_sorted_set_of(ids, b));
    sorted_set_is(a, ids);
    sorted_set_is(b, ids);
}

/// Every contract of an allowlist that the filters can express is named by exactly one filter, at
/// one place, and the filters name no other contract and keep within the caps.
pub proof fn filters_name_each_contract_once(
    ids: Seq<Seq<char>>,
    topics: Seq<Seq<Seq<char>>>,
)
    requires
        0 < ids.len() <= MAX_FILTERABLE_CONTRACTS,
    ensures
        ({
            let plan = plan_of(ids, topics);
            &&& !plan.degraded
            &&& 0 < plan.filters.len() <= MAX_FILTERS_PER_REQUEST
            &&& forall|f: int|
                0 <= f < plan.filters.len() ==> 0 < (
                #[trigger] plan.filters[f]).contract_ids.len() <= MAX_CONTRACT_IDS_PER_FILTER
                    && plan.filters[f].topics == topics
            &&& forall|k: int|
                0 <= k < ids.len() ==> 0 <= k / 5 < plan.filters.len()
                    && #[trigger] plan.filters[k / 5].contract_ids[k % 5] == ids[k]
            &&& forall|f: int, m: int|
                0 <= f < plan.filters.len() && 0 <= m < plan.filters[f].contract_ids.len()
                    ==> #[trigger] plan.filters[f].contract_ids[m] == ids[5 * f + m]
        }),
{
    let plan = plan_of(ids, topics);
    assert forall|k: int| 0 <= k < ids.len() implies 0 <= k / 5 < plan.filters.len()
        && #[trigger] plan.filters[k / 5].contract_ids[k % 5] == ids[k] by {
        assert(plan.filters[k / 5] == shard(ids, topics, k / 5));
    }
    assert forall|f: int, m: int|
        0 <= f < plan.filters.len() && 0 <= m
            < plan.filters[f].contract_ids.len() implies #[trigger] plan.filters[f].contract_ids[m]
        == ids[5 * f + m] by {
        assert(plan.filters[f] == shard(ids, topics, f));
    }
    assert forall|f: int| 0 <= f < plan.filters.len() implies 0 < (
    #[trigger] plan.filters[f]).contract_ids.len() <= MAX_CONTRACT_IDS_PER_FILTER
        && plan.filters[f].topics == topics by {
        assert(plan.filters[f] == shard(ids, topics, f));
    }
}

/// A number as four bytes, most significant first.
pub open spec fn be32(n: int) -> Seq<u8> {
    seq![(n / 16777216 % 256) as u8, (n / 65536 % 256) as u8, (n / 256 % 256) as u8, (n % 256) as u8]
}

/// Zero bytes up to a multiple of four.
pub open spec fn padding(n: int) -> Seq<u8> {
    Seq::new(((4 - n % 4) % 4) as nat, |i: int| 0u8)
}

/// The XDR of a symbol value: its kind, its length, its bytes and the padding.
pub open spec fn symbol_xdr(symbol: Seq<u8>) -> Seq<u8> {
    seq![0u8, 0, 0, 15] + be32(symbol.len() as int) + symbol + padding(symbol.len() as int)
}

/// `ScSymbol::try_from` and `WriteXdr::to_xdr` of the `stellar_xdr` crate on a symbol value. A
/// text of more than 32 bytes is no symbol; writing to memory without limits always succeeds.
#[verifier::external_body]
pub(crate) fn write_symbol(symbol: &str) -> (r: Option<Vec<u8>>)
    ensures
        match r {
            Some(bytes) => vstd::utf8::encode_utf8(symbol@).len() <= 32 && bytes@ == symbol_xdr(
                vstd::utf8::encode_utf8(symbol@),
            ),
            None => vstd::utf8::encode_utf8(symbol@).len() > 32,
        },
{
    let symbol = ScSymbol::try_from(symbol.to_string()).ok()?;
    stellar_xdr::curr::ScVal::Symbol(symbol).to_xdr(Limits::none()).ok()
}

/// A segment of a topic pattern in the form that the RPC compares: a wildcard as it is, a symbol as
/// base64 XDR. There is none for a symbol that is too long.
pub open spec fn segment_of(segment: Seq<char>) -> Option<Seq<char>> {
    let bytes = vstd::utf8::encode_utf8(segment);
    if segment == "*"@ || segment == "**"@ {
        Some(segment)
    } else if bytes.len() > 32 {
        None
    } else {
        Some(base64_encoded(symbol_xdr(bytes)))
    }
}

/// The segments of a pattern, or the message for the first that is empty or no symbol.
pub open spec fn segments_of(parts: Seq<Seq<char>>, pattern: Seq<char>) -> Result<
    Seq<Seq<char>>,
    Seq<char>,
>
    decreases parts.len(),
{
    if parts.len() == 0 {
        Ok(Seq::empty())
    } else {
        let segment = trim(parts.last());
        match segments_of(parts.drop_last(), pattern) {
            Err(e) => Err(e),
            Ok(before) => if segment.len() == 0 {
                Err("empty topic segment in pattern "@ + quoted(pattern))
            } else {
                match segment_of(segment) {
                    None => Err(
                        "invalid topic symbol "@ + quoted(segment)
                            + ": not a valid Soroban symbol"@,
                    ),
                    Some(s) => Ok(before.push(s)),
                }
            },
        }
    }
}

/// A pattern, which is not empty, or the message of the error.
pub open spec fn pattern_of(pattern: Seq<char>) -> Result<Seq<Seq<char>>, Seq<char>> {
    match segments_of(split(pattern, '/'), pattern) {
        Err(e) => Err(e),
        Ok(segments) => if segments.len() > 4 {
            Err(
                "topic pattern "@ + quoted(pattern) + " has "@ + dec(segments.len())
                    + " segments; the RPC allows at most 4"@,
            )
        } else {
            Ok(segments)
        },
    }
}

/// The patterns among some pieces, without the empty ones, or the message of the first error.
pub open spec fn patterns_of(pieces: Seq<Seq<char>>) -> Result<Seq<Seq<Seq<char>>>, Seq<char>>
    decreases pieces.len(),
{
    if pieces.len() == 0 {
        Ok(Seq::empty())
    } else {
        match patterns_of(pieces.drop_last()) {
            Err(e) => Err(e),
            Ok(before) => {
                let pattern = trim(pieces.last());
                if pattern.len() == 0 {
                    Ok(before)
                } else {
                    match pattern_of(pattern) {
                        Err(e) => Err(e),
                        Ok(p) => Ok(before.push(p)),
                    }
                }
            },
        }
    }
}

proof fn lemma_segment_error_stays(parts: Seq<Seq<char>>, k: int, pattern: Seq<char>)
    requires
        0 <= k <= parts.len(),
        segments_of(parts.take(k), pattern) is Err,
    ensures
        segments_of(parts, pattern) == segments_of(parts.take(k), pattern),
    decreases parts.len() - k,
{
    if k == parts.len() {
        assert(parts.take(k) =~= parts);
    } else {
        assert(parts.take(k + 1).drop_last() =~= parts.take(k));
        lemma_segment_error_stays(parts, k + 1, pattern);
    }
}

proof fn lemma_pattern_error_stays(pieces: Seq<Seq<char>>, k: int)
    requires
        0 <= k <= pieces.len(),
        patterns_of(pieces.take(k)) is Err,
    ensures
        patterns_of(pieces) == patterns_of(pieces.take(k)),
    decreases pieces.len() - k,
{
    if k == pieces.len() {
        assert(pieces.take(k) =~= pieces);
    } else {
        assert(pieces.take(k + 1).drop_last() =~= pieces.take(k));
        lemma_pattern_error_stays(pieces, k + 1);
    }
}

fn encode_segment(segment: &str) -> (r: Option<String>)
    ensures
        crate::text::opt_view(r) == segment_of(segment@),
{
    if same(segment, "*") || same(segment, "**") {
        return Some(segment.to_owned());
    }
    match write_symbol(segment) {
        Some(bytes) => Some(base64_encode(&bytes)),
        None => None,
    }
}

fn parse_pattern(pattern: &[char]) -> (r: Result<Vec<String>, String>)
    ensures
        match r {
            Ok(segments) => pattern_of(pattern@) == Ok::<Seq<Seq<char>>, Seq<char>>(
                views(segments@),
            ),
            Err(e) => pattern_of(pattern@) == Err::<Seq<Seq<char>>, Seq<char>>(e@),
        },
{
    let text = string_of(pattern);
    let parts = split_chars(pattern, '/');
    let ghost all = char_views(parts@);
    let mut segments: Vec<String> = Vec::new();
    let mut i: usize = 0;
    assert(all.take(0) =~= Seq::<Seq<char>>::empty());
    assert(views(segments@) =~= Seq::<Seq<char>>::empty());
    while i < parts.len()
        invariant
            i <= parts.len(),
            text@ == pattern@,
            all == char_views(parts@),
            all == split(pattern@, '/'),
            segments_of(all.take(i as int), pattern@) == Ok::<Seq<Seq<char>>, Seq<char>>(
                views(segments@),
            ),
        decreases parts.len() - i,
    {
        assert(all.take(i + 1).drop_last() =~= all.take(i as int));
        assert(all.take(i + 1).last() == parts@[i as int]@);
        let trimmed = trim_chars(&parts[i]);
        if trimmed.len() == 0 {
            proof {
                lemma_segment_error_stays(all, i + 1, pattern@);
            }
            let mut e = "empty topic segment in pattern ".to_owned();
            e.append(quote(text.as_str()).as_str());
            return Err(e);
        }
        let segment = string_of(&trimmed);
        match encode_segment(segment.as_str()) {
            None => {
                proof {
                    lemma_segment_error_stays(all, i + 1, pattern@);
                }
                let mut e = "invalid topic symbol ".to_owned();
                e.append(quote(segment.as_str()).as_str());
                e.append(": not a valid Soroban symbol");
                return Err(e);
            },
            Some(s) => {
                let ghost earlier = views(segments@);
                segments.push(s);
                assert(views(segments@) =~= earlier.push(s@));
            },
        }
        i = i + 1;
    }
    assert(all.take(i as int) =~= all);
    if segments.len() > 4 {
        let mut e = "topic pattern ".to_owned();
        e.append(quote(text.as_str()).as_str());
        e.append(" has ");
        push_dec(&mut e, segments.len() as u128);
        e.append(" segments; the RPC allows at most 4");
        return Err(e);
    }
    Ok(segments)
}

/// Reads topic patterns: patterns with commas between them, each a list of segments with slashes
/// between them. A segment is a wildcard or a symbol.
pub fn parse_topic_filters(spec: &str) -> (r: Result<Vec<Vec<String>>, String>)
    ensures
        match r {
            Ok(patterns) => patterns_of(split(spec@, ',')) == Ok::<
                Seq<Seq<Seq<char>>>,
                Seq<char>,
            >(nested_views(patterns@)),
            Err(e) => patterns_of(split(spec@, ',')) == Err::<Seq<Seq<Seq<char>>>, Seq<char>>(e@),
        },
{
    let chars = chars_of(spec);
    let pieces = split_chars(&chars, ',');
    let ghost all = char_views(pieces@);
    let mut patterns: Vec<Vec<String>> = Vec::new();
    let mut i: usize = 0;
    assert(all.take(0) =~= Seq::<Seq<char>>::empty());
    assert(nested_views(patterns@) =~= Seq::<Seq<Seq<char>>>::empty());
    while i < pieces.len()
        invariant
            i <= pieces.len(),
            all == char_views(pieces@),
            all == split(spec@, ','),
            patterns_of(all.take(i as int)) == Ok::<Seq<Seq<Seq<char>>>, Seq<char>>(
                nested_views(patterns@),
            ),
        decreases pieces.len() - i,
    {
        assert(all.take(i + 1).drop_last() =~= all.take(i as int));
        assert(all.take(i + 1).last() == pieces@[i as int]@);
        let pattern = trim_chars(&pieces[i]);
        if pattern.len() > 0 {
            match parse_pattern(&pattern) {
                Ok(p) => {
                    let ghost earlier = nested_views(patterns@);
                    patterns.push(p);
                    assert(nested_views(patterns@) =~= earlier.push(views(p@)));
                },
                Err(e) => {
                    proof {
                        lemma_pattern_error_stays(all, i + 1);
                    }
                    return Err(e);
                },
            }
        }
        i = i + 1;
    }
    assert(all.take(i as int) =~= all);
    Ok(patterns)
}

/// The filters of an allowlist name just the contracts that are listed, each of them, and all carry the
/// topic patterns. None are sent for an empty list, nor for one of more than twenty-five contracts, and
/// only the latter is told.
pub proof fn plans_name_what_is_listed(
    list: Seq<Seq<char>>,
    ids: Seq<Seq<char>>,
    topics: Seq<Seq<Seq<char>>>,
    contract: Seq<char>,
)
    requires
        is_sorted_set_of(ids, list),
    ensures
        ({
            let plan = filter_plan(Some(list), topics);
            &&& plan.degraded <==> ids.len() > 25
            &&& ids.len() == 0 || ids.len() > 25 ==> plan.filters.len() == 0
            &&& 0 < ids.len() <= 25 ==> (list.contains(contract) <==> exists|f: int|
                0 <= f < plan.filters.len() && (
                #[trigger] plan.filters[f]).contract_ids.contains(contract))
            &&& forall|f: int|
                0 <= f < plan.filters.len() ==> (#[trigger] plan.filters[f]).event_type
                    == "contract"@ && plan.filters[f].topics == topics && 1
                    <= plan.filters[f].contract_ids.len() <= 5
            &&& plan.filters.len() <= 5
        }),
{
    sorted_set_is(list, ids);
    let plan = filter_plan(Some(list), topics);
    if 0 < ids.len() <= 25 {
        filters_name_each_contract_once(ids, topics);
        assert forall|f: int| 0 <= f < plan.filters.len() implies (
        #[trigger] plan.filters[f]).event_type == "contract"@ by {
            assert(plan.filters[f] == shard(ids, topics, f));
        }
        assert(ids.contains(contract) <==> list.contains(contract));
        if list.contains(contract) {
            let k = choose|k: int| 0 <= k < ids.len() && ids[k] == contract;
            assert(plan.filters[k / 5].contract_ids[k % 5] == ids[k]);
            assert(plan.filters[k / 5] == shard(ids, topics, k / 5));
            assert(plan.filters[k / 5].contract_ids.contains(contract));
        }
        if exists|f: int|
            0 <= f < plan.filters.len() && (#[trigger] plan.filters[f]).contract_ids.contains(
                contract,
            ) {
            let f = choose|f: int|
                0 <= f < plan.filters.len() && (#[trigger] plan.filters[f]).contract_ids.contains(
                    contract,
                );
            let m = choose|m: int|
                0 <= m < plan.filters[f].contract_ids.len() && plan.filters[f].contract_ids[m]
                    == contract;
            assert(plan.filters[f].contract_ids[m] == ids[5 * f + m]);
            assert(ids[5 * f + m] == contract);
            assert(plan.filters[f] == shard(ids, topics, f));
        }
    }
}

/// A filter tells its kind always, and its contracts and its topic patterns, in their order, exactly
/// where it has any.
pub proof fn filters_tell_what_they_narrow(filter: FilterView)
    ensures
        ({
            let json = filter_json(filter);
            &&& member_of(json, "type"@) == Some(JsonView::String(filter.event_type))
            &&& member_of(json, "contractIds"@) is Some <==> filter.contract_ids.len() > 0
            &&& filter.contract_ids.len() > 0 ==> member_of(json, "contractIds"@)->0
                == JsonView::Array(
                filter.contract_ids.map_values(|t: Seq<char>| JsonView::String(t)),
            )
            &&& member_of(json, "topics"@) is Some <==> filter.topics.len() > 0
            &&& filter.topics.len() > 0 ==> member_of(json, "topics"@)->0 is Array && member_of(
                json,
                "topics"@,
            )->0->Array_0.len() == filter.topics.len() && forall|i: int|
                0 <= i < filter.topics.len() ==> #[trigger] member_of(json, "topics"@)->0->Array_0[i]
                    == JsonView::Array(filter.topics[i].map_values(|t: Seq<char>| JsonView::String(t)))
        }),
{
    reveal_strlit("type");
    reveal_strlit("contractIds");
    reveal_strlit("topics");
    assert("type"@.len() == 4 && "contractIds"@.len() == 11 && "topics"@.len() == 6);
}

/// A segment of a topic pattern is a wildcard as it is, and any other text of up to 32 bytes the base64
/// of its symbol: kind fifteen, the length, the bytes, and zero bytes up to a multiple of four.
pub proof fn segments_are_wildcards_or_symbols(segment: Seq<char>)
    ensures
        segment_of("*"@) == Some("*"@),
        segment_of("**"@) == Some("**"@),
        ({
            let bytes = vstd::utf8::encode_utf8(segment);
            let n = bytes.len();
            segment != "*"@ && segment != "**"@ ==> match segment_of(segment) {
                None => n > 32,
                Some(text) => n <= 32 && exists|xdr: Seq<u8>|
                    {
                        &&& text == #[trigger] base64_encoded(xdr)
                        &&& xdr.len() % 4 == 0 && 8 + n <= xdr.len() < 12 + n
                        &&& xdr.take(8) == seq![0u8, 0, 0, 15, 0, 0, 0, n as u8]
                        &&& xdr.subrange(8, 8 + n as int) == bytes
                        &&& forall|i: int| 8 + n <= i < xdr.len() ==> #[trigger] xdr[i] == 0
                    },
            }
        }),
{
    let bytes = vstd::utf8::encode_utf8(segment);
    let n = bytes.len();
    if segment != "*"@ && segment != "**"@ && n <= 32 {
        let xdr = symbol_xdr(bytes);
        assert(xdr.take(8) =~= seq![0u8, 0, 0, 15, 0, 0, 0, n as u8]);
        assert(xdr.subrange(8, 8 + n as int) =~= bytes);
        assert(base64_encoded(xdr) == segment_of(segment)->0);
    }
}

/// The segments of a pattern are those of its parts, each without the white space around it, in their
/// order; a part that is blank or no symbol fails the whole.
pub proof fn patterns_keep_their_segments_in_order(parts: Seq<Seq<char>>, pattern: Seq<char>)
    ensures
        match segments_of(parts, pattern) {
            Ok(segments) => segments.len() == parts.len() && forall|i: int|
                0 <= i < parts.len() ==> trim(#[trigger] parts[i]).len() > 0 && segment_of(
                    trim(parts[i]),
                ) == Some(segments[i]),
            Err(_) => exists|i: int|
                0 <= i < parts.len() && (trim(#[trigger] parts[i]).len() == 0 || segment_of(
                    trim(parts[i]),
                ) is None),
        },
    decreases parts.len(),
{
    if parts.len() > 0 {
        let rest = parts.drop_last();
        let n = parts.len() - 1;
        patterns_keep_their_segments_in_order(rest, pattern);
        assert(parts.last() == parts[n]);
        match segments_of(rest, pattern) {
            Err(_) => {
                let i = choose|i: int|
                    0 <= i < rest.len() && (trim(#[trigger] rest[i]).len() == 0 || segment_of(
                        trim(rest[i]),
                    ) is None);
                assert(parts[i] == rest[i]);
            },
            Ok(before) => {
                assert forall|i: int| 0 <= i < n implies trim(#[trigger] parts[i]).len() > 0
                    && segment_of(trim(parts[i])) == Some(before[i]) by {
                    assert(parts[i] == rest[i]);
                }
            },
        }
    }
}

/// A pattern has at most four segments, one for each part between its slashes.
pub proof fn patterns_have_at_most_four_segments(pattern: Seq<char>)
    ensures
        match pattern_of(pattern) {
            Ok(segments) => segments.len() == split(pattern, '/').len() && 1 <= segments.len() <= 4
                && segments_of(split(pattern, '/'), pattern) == Ok::<Seq<Seq<char>>, Seq<char>>(
                segments,
            ),
            Err(_) => split(pattern, '/').len() > 4 || segments_of(
                split(pattern, '/'),
                pattern,
            ) is Err,
        },
{
    patterns_keep_their_segments_in_order(split(pattern, '/'), pattern);
    crate::text::split_joins_back(pattern, '/');
}

/// Each piece that is not blank adds its pattern behind those before it, a blank one adds none, and one
/// that is no pattern fails the whole.
pub proof fn pieces_add_their_pattern(pieces: Seq<Seq<char>>, piece: Seq<char>)
    ensures
        patterns_of(Seq::empty()) == Ok::<Seq<Seq<Seq<char>>>, Seq<char>>(Seq::empty()),
        patterns_of(pieces) is Ok ==> ({
            let before = patterns_of(pieces)->Ok_0;
            let after = patterns_of(pieces.push(piece));
            if trim(piece).len() == 0 {
                after == Ok::<Seq<Seq<Seq<char>>>, Seq<char>>(before)
            } else {
                match pattern_of(trim(piece)) {
                    Err(e) => after == Err::<Seq<Seq<Seq<char>>>, Seq<char>>(e),
                    Ok(p) => after is Ok && after->Ok_0.len() == before.len() + 1
                        && after->Ok_0.drop_last() == before && after->Ok_0.last() == p,
                }
            }
        }),
        patterns_of(pieces) is Err ==> patterns_of(pieces.push(piece)) == patterns_of(pieces),
{
    assert(pieces.push(piece).drop_last() =~= pieces);
    if let Ok(before) = patterns_of(pieces) {
        if trim(piece).len() > 0 {
            if let Ok(p) = pattern_of(trim(piece)) {
                assert(before.push(p).drop_last() =~= before);
            }
        }
    }
}

/// What is wrong with a pattern is said of the pattern or of the segment: that a segment is empty,
/// that it is no symbol, or how many segments there are.
pub proof fn refused_patterns_are_named(pattern: Seq<char>, parts: Seq<Seq<char>>, segment: Seq<char>)
    ensures
        segments_of(parts, pattern) is Ok && trim(segment).len() == 0 ==> segments_of(
            parts.push(segment),
            pattern,
        ) == Err::<Seq<Seq<char>>, Seq<char>>("empty topic segment in pattern "@ + quoted(pattern)),
        segments_of(parts, pattern) is Ok && trim(segment).len() > 0 && segment_of(trim(segment))
            is None ==> segments_of(parts.push(segment), pattern) == Err::<
            Seq<Seq<char>>,
            Seq<char>,
        >("invalid topic symbol "@ + quoted(trim(segment)) + ": not a valid Soroban symbol"@),
        segments_of(split(pattern, '/'), pattern) is Ok && segments_of(
            split(pattern, '/'),
            pattern,
        )->Ok_0.len() > 4 ==> pattern_of(pattern) == Err::<Seq<Seq<char>>, Seq<char>>(
            "topic pattern "@ + quoted(pattern) + " has "@ + dec(
                segments_of(split(pattern, '/'), pattern)->Ok_0.len(),
            ) + " segments; the RPC allows at most 4"@,
        ),
{
    assert(parts.push(segment).drop_last() =~= parts);
}

} // verus!
