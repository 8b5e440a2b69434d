//! The walk over the events of the RPC that a reconciliation pass compares with the database:
//! which window it covers, which requests it makes, which events it counts and where it stops.
use vstd::prelude::*;

use std::collections::HashMap;

use crate::errors::ErrorSource;
use crate::errors::TridentError;
use crate::indexer::reconcile::count;
use crate::indexer::reconcile::count_of;
use crate::raw::event_type_of;
use crate::raw::skipped;
use crate::raw::RawEvent;
use crate::raw::RawView;
use crate::text::dec;
use crate::text::opt_clone;
use crate::text::opt_view;
use crate::text::parse_bounded;
use crate::text::parse_u64;
use crate::text::push_dec;
use crate::text::quote;
use crate::text::quoted;
use crate::text::same;
use crate::wide::wrap_i64;
use crate::wide::wrapped_i64;

verus! {

broadcast use {
    vstd::string::group_string_axioms,
    vstd::std_specs::hash::group_hash_axioms,
};

/// The events that a page of the walk asks for.
pub const PAGE_LIMIT: u32 = 200;

/// The pages after which a walk stops, wherever it is.
pub const MAX_PAGES: u32 = 400;

/// More events than a page can hold: so many do not fit into the memory that can be addressed.
pub const PAGE_BOUND: u64 = 46_116_860_184_273_879;

/// A contract on the list of those to index, and the first ledger from which on it is indexed.
#[derive(Debug)]
pub struct IndexedContract {
    pub contract_id: String,
    pub index_from: i64,
}

/// The ledger from which on a contract is indexed, where the list names it.
pub open spec fn index_from(list: Seq<IndexedContract>, contract: Seq<char>) -> Option<i64>
    decreases list.len(),
{
    if list.len() == 0 {
        None
    } else if list[0].contract_id@ == contract {
        Some(list[0].index_from)
    } else {
        index_from(list.skip(1), contract)
    }
}

/// The ledger from which on a contract is indexed, where the list names it.
pub fn indexed_from(list: &[IndexedContract], contract: &str) -> (r: Option<i64>)
    ensures
        r == index_from(list@, contract@),
{
    let mut i: usize = 0;
    assert(list@.skip(0) =~= list@);
    while i < list.len()
        invariant
            i <= list.len(),
            index_from(list@, contract@) == index_from(list@.skip(i as int), contract@),
        decreases list.len() - i,
    {
        assert(list@.skip(i as int).skip(1) =~= list@.skip(i + 1));
        assert(list@.skip(i as int)[0] == list@[i as int]);
        if same(list[i].contract_id.as_str(), contract) {
            return Some(list[i].index_from);
        }
        i = i + 1;
    }
    None
}

/// Whether the list admits an event of a contract at a ledger. No list admits every event.
pub open spec fn admitted(
    list: Option<Seq<IndexedContract>>,
    contract: Seq<char>,
    ledger: u64,
) -> bool {
    match list {
        None => true,
        Some(l) => match index_from(l, contract) {
            None => false,
            Some(from) => wrapped_i64(ledger) >= from,
        },
    }
}

/// What a list is, or that there is none.
pub open spec fn opt_list(list: Option<&[IndexedContract]>) -> Option<Seq<IndexedContract>> {
    match list {
        None => None,
        Some(l) => Some(l@),
    }
}

/// Whether the list admits an event of a contract at a ledger.
pub fn admits(list: Option<&[IndexedContract]>, contract: &str, ledger: u64) -> (r: bool)
    ensures
        r == admitted(opt_list(list), contract@, ledger),
{
    match list {
        None => true,
        Some(l) => match indexed_from(l, contract) {
            None => false,
            Some(from) => wrap_i64(ledger) >= from,
        },
    }
}

/// Whether an event counts toward the index: the rules by which the indexer itself selects what it
/// stores.
pub open spec fn counting(
    raw: RawView,
    ledger: u64,
    index_diagnostic: bool,
    list: Option<Seq<IndexedContract>>,
) -> bool {
    &&& raw.event_type != "diagnostic"@ || index_diagnostic
    &&& raw.in_successful_contract_call
    &&& admitted(list, raw.contract(), ledger)
}

/// Whether an event counts toward the index.
pub fn counts_toward_index(
    event: &RawEvent,
    ledger: u64,
    index_diagnostic: bool,
    list: Option<&[IndexedContract]>,
) -> (r: bool)
    ensures
        r == counting(event@, ledger, index_diagnostic, opt_list(list)),
{
    if same(event.event_type.as_str(), "diagnostic") && !index_diagnostic {
        return false;
    }
    if !event.in_successful_contract_call {
        return false;
    }
    let contract = event.contract();
    admits(list, contract.as_str(), ledger)
}

/// An event of a known type counts exactly where the parser does not skip it and the list admits
/// it: comparing counts compares like with like.
pub proof fn counting_mirrors_the_parser(
    raw: RawView,
    ledger: u64,
    index_diagnostic: bool,
    list: Option<Seq<IndexedContract>>,
)
    requires
        event_type_of(raw.event_type) is Some,
    ensures
        counting(raw, ledger, index_diagnostic, list) <==> !skipped(
            event_type_of(raw.event_type)->0,
            raw,
            index_diagnostic,
        ) && admitted(list, raw.contract(), ledger),
{
    reveal_strlit("diagnostic");
    reveal_strlit("contract");
    reveal_strlit("system");
    assert("diagnostic"@.len() != "contract"@.len());
    assert("diagnostic"@.len() != "system"@.len());
}

// ---------------------------------------------------------------------------------------------
// The window.
// ---------------------------------------------------------------------------------------------
/// The last settled ledger.
pub open spec fn settled_end(tip: u64, margin: u64) -> int {
    if tip >= margin {
        tip - margin
    } else {
        0
    }
}

/// The first ledger of the window that ends at the last settled one.
pub open spec fn settled_start(tip: u64, margin: u64, span: u64) -> int {
    let back = if span > 0 {
        span - 1
    } else {
        0
    };
    let start = settled_end(tip, margin) - back;
    if start >= 1 {
        start
    } else {
        1
    }
}

/// The window of the last settled ledgers, as many as `span`, behind a margin from the tip.
pub fn settled_window(tip: u64, margin: u64, span: u64) -> (r: Result<(u64, u64), TridentError>)
    ensures
        match r {
            Ok((start, end)) => tip > margin && start == settled_start(tip, margin, span) && end
                == settled_end(tip, margin),
            Err(e) => tip <= margin && e is RpcError && e->ledger is None && e.cause().text()
                == "chain tip "@ + dec(tip as nat)
                + " leaves no settled window behind a margin of "@ + dec(margin as nat),
        },
{
    let end: u64 = tip.saturating_sub(margin);
    let back: u64 = end.saturating_sub(span.saturating_sub(1));
    let start: u64 = if back >= 1 {
        back
    } else {
        1
    };
    if end == 0 || start > end {
        let mut message = "chain tip ".to_owned();
        push_dec(&mut message, tip as u128);
        message.append(" leaves no settled window behind a margin of ");
        push_dec(&mut message, margin as u128);
        return Err(TridentError::rpc(ErrorSource::msg(message)));
    }
    Ok((start, end))
}

/// A settled window is not empty, lies behind the margin and holds no more ledgers than its span,
/// and just so many where the chain is long enough.
pub proof fn settled_windows_keep_their_span(tip: u64, margin: u64, span: u64)
    requires
        tip > margin,
    ensures
        1 <= settled_start(tip, margin, span) <= settled_end(tip, margin),
        settled_end(tip, margin) + margin == tip,
        span > 0 ==> settled_end(tip, margin) - settled_start(tip, margin, span) + 1 <= span,
        0 < span <= settled_end(tip, margin) ==> settled_end(tip, margin) - settled_start(
            tip,
            margin,
            span,
        ) + 1 == span,
{
}

/// The end of the window, cut off where the indexer has not got yet.
pub fn indexed_end(start: u64, end: u64, cursor: u64) -> (r: Result<u64, TridentError>)
    ensures
        match r {
            Ok(e) => e == (if end <= cursor {
                end
            } else {
                cursor
            }) && e >= start,
            Err(e) => (end < start || cursor < start) && e is RpcError && e->ledger is None
                && e.cause().text() == "indexer cursor "@ + dec(cursor as nat)
                + " has not reached the settled window starting at "@ + dec(start as nat)
                + "; nothing to reconcile yet"@,
        },
{
    let cut: u64 = if end <= cursor {
        end
    } else {
        cursor
    };
    if cut < start {
        let mut message = "indexer cursor ".to_owned();
        push_dec(&mut message, cursor as u128);
        message.append(" has not reached the settled window starting at ");
        push_dec(&mut message, start as u128);
        message.append("; nothing to reconcile yet");
        return Err(TridentError::rpc(ErrorSource::msg(message)));
    }
    Ok(cut)
}

/// The end of what a walk lets one compare: where it was cut off by the cap on pages, the ledger
/// before the last one it saw, since that one may be counted in part.
pub fn comparable_end(start: u64, end: u64, truncated: bool, last_seen: u64) -> (r: Result<
    u64,
    TridentError,
>)
    ensures
        match r {
            Ok(e) => if truncated {
                last_seen > 0 && e == last_seen - 1 && e >= start || last_seen == 0 && e == 0
                    && start == 0
            } else {
                e == end
            },
            Err(e) => truncated && last_seen <= start && start > 0 && e is RpcError && e->ledger
                is None && e.cause().text()
                == "reconciliation walk hit the page cap before completing a single ledger;                      lower RECONCILE_LEDGER_SPAN (window ["@
                + dec(start as nat) + ", "@ + dec(end as nat) + "])"@,
        },
{
    if !truncated {
        return Ok(end);
    }
    let covered: u64 = last_seen.saturating_sub(1);
    if covered < start {
        let mut message =
            "reconciliation walk hit the page cap before completing a single ledger;                      lower RECONCILE_LEDGER_SPAN (window [".to_owned();
        push_dec(&mut message, start as u128);
        message.append(", ");
        push_dec(&mut message, end as u128);
        message.append("])");
        return Err(TridentError::rpc(ErrorSource::msg(message)));
    }
    Ok(covered)
}

// ---------------------------------------------------------------------------------------------
// The walk.
// ---------------------------------------------------------------------------------------------
/// What a walk asks the RPC for. It starts at a ledger or resumes at a cursor, never both.
#[derive(Debug)]
pub struct WalkRequest {
    pub start_ledger: Option<u64>,
    pub cursor: Option<String>,
    pub limit: u32,
}

/// A walk over the events of a window.
#[derive(Debug)]
pub struct Walk {
    window_start: u64,
    window_end: u64,
    cursor: Option<String>,
    per_ledger: HashMap<u64, u64>,
    last_seen: u64,
    pages: u32,
    finished: bool,
}

/// Where a walk stands.
pub struct WalkView {
    pub window_start: u64,
    pub window_end: u64,
    /// Where the next page resumes.
    pub cursor: Option<Seq<char>>,
    /// The events counted per ledger.
    pub counts: Map<u64, u64>,
    /// The highest ledger seen.
    pub last_seen: u64,
    /// The pages taken.
    pub pages: nat,
    /// Whether the walk came to the end of the window or of the events.
    pub finished: bool,
}

/// The ledger of an event, where it can be read.
pub open spec fn ledger_of(raw: RawView) -> Option<nat> {
    parse_bounded(raw.ledger, u64::MAX as nat)
}

/// How many events of a page, from position `i` on, come before the first whose ledger cannot be
/// read or lies beyond the window.
pub open spec fn walked(page: Seq<RawView>, window_end: u64, i: int) -> int
    decreases page.len() - i,
{
    if i >= page.len() {
        page.len() as int
    } else {
        match ledger_of(page[i]) {
            None => i,
            Some(l) => if l > window_end {
                i
            } else {
                walked(page, window_end, i + 1)
            },
        }
    }
}

/// How many of the given events count at a ledger.
pub open spec fn counted(
    page: Seq<RawView>,
    ledger: int,
    index_diagnostic: bool,
    list: Option<Seq<IndexedContract>>,
) -> nat
    decreases page.len(),
{
    if page.len() == 0 {
        0
    } else {
        let e = page.last();
        counted(page.drop_last(), ledger, index_diagnostic, list) + if ledger_of(e) == Some(
            ledger as nat,
        ) && ledger >= 0 && counting(e, ledger as u64, index_diagnostic, list) {
            1nat
        } else {
            0
        }
    }
}

/// The highest ledger of the given events, no lower than `floor`.
pub open spec fn highest(page: Seq<RawView>, floor: nat) -> nat
    decreases page.len(),
{
    if page.len() == 0 {
        floor
    } else {
        let rest = highest(page.drop_last(), floor);
        match ledger_of(page.last()) {
            Some(l) => if l > rest {
                l
            } else {
                rest
            },
            None => rest,
        }
    }
}

/// What is said of an event whose ledger cannot be read.
pub open spec fn unreadable_text(raw: RawView) -> Seq<char> {
    "event "@ + raw.id + " reported an unparseable ledger "@ + quoted(raw.ledger)
}

impl WalkView {
    /// Whether the cap on pages cut the walk off.
    pub open spec fn truncated(self) -> bool {
        !self.finished
    }

    /// Whether there is another page to fetch.
    pub open spec fn goes_on(self) -> bool {
        !self.finished && self.pages < MAX_PAGES
    }

    /// The first event of the page at which the walk halts.
    pub open spec fn halt(self, page: Seq<RawView>) -> int {
        walked(page, self.window_end, 0)
    }

    /// Whether the walk fails on a page: it comes to an event whose ledger cannot be read.
    pub open spec fn fails_on(self, page: Seq<RawView>) -> bool {
        self.halt(page) < page.len() && ledger_of(page[self.halt(page)]) is None
    }

    /// Whether `next` is where the walk stands once it has halted on a page.
    pub open spec fn halts_at(
        self,
        page: Seq<RawView>,
        index_diagnostic: bool,
        list: Option<Seq<IndexedContract>>,
        next: WalkView,
    ) -> bool {
        let taken = page.take(self.halt(page));
        &&& next.window_start == self.window_start
        &&& next.window_end == self.window_end
        &&& next.pages == self.pages + 1
        &&& forall|l: int|
            #[trigger] count(next.counts, l) == count(self.counts, l) + counted(
                taken,
                l,
                index_diagnostic,
                list,
            )
        &&& next.last_seen == highest(taken, self.last_seen as nat)
        &&& next.cursor == if taken.len() > 0 {
            Some(taken.last().cursor())
        } else {
            self.cursor
        }
    }

    /// Whether `next` is where the walk stands after a page that it does not fail on: it is
    /// finished where the page goes beyond the window or is not full.
    pub open spec fn steps_to(
        self,
        page: Seq<RawView>,
        index_diagnostic: bool,
        list: Option<Seq<IndexedContract>>,
        next: WalkView,
    ) -> bool {
        &&& self.halts_at(page, index_diagnostic, list, next)
        &&& next.finished == (self.halt(page) < page.len() || page.len() < PAGE_LIMIT)
    }
}

impl View for Walk {
    type V = WalkView;

    closed spec fn view(&self) -> WalkView {
        WalkView {
            window_start: self.window_start,
            window_end: self.window_end,
            cursor: opt_view(self.cursor),
            counts: self.per_ledger@,
            last_seen: self.last_seen,
            pages: self.pages as nat,
            finished: self.finished,
        }
    }
}

/// The views of a page.
pub open spec fn raw_views(page: Seq<RawEvent>) -> Seq<RawView> {
    page.map_values(|e: RawEvent| e@)
}

proof fn lemma_counted_bound(
    page: Seq<RawView>,
    ledger: int,
    index_diagnostic: bool,
    list: Option<Seq<IndexedContract>>,
)
    ensures
        counted(page, ledger, index_diagnostic, list) <= page.len(),
    decreases page.len(),
{
    if page.len() > 0 {
        lemma_counted_bound(page.drop_last(), ledger, index_diagnostic, list);
    }
}

/// A walk that goes on after a page resumes behind the last event of it: a request is anchored by
/// the start of the window or by a cursor, never by both.
pub proof fn walks_resume_by_cursor(
    s: WalkView,
    page: Seq<RawView>,
    index_diagnostic: bool,
    list: Option<Seq<IndexedContract>>,
    next: WalkView,
)
    requires
        s.steps_to(page, index_diagnostic, list, next),
        next.goes_on(),
    ensures
        next.pages > 0,
        page.len() >= PAGE_LIMIT,
        next.cursor == Some(page.last().cursor()),
{
    lemma_walked(page, s.window_end, 0);
    assert(page.take(s.halt(page)) =~= page);
}

/// Every walk ends: each page brings it closer to the most pages that it may take, and at that
/// number it does not go on.
pub proof fn walks_come_to_an_end(
    s: WalkView,
    page: Seq<RawView>,
    index_diagnostic: bool,
    list: Option<Seq<IndexedContract>>,
    next: WalkView,
)
    requires
        s.goes_on(),
        s.steps_to(page, index_diagnostic, list, next),
    ensures
        s.pages < next.pages <= MAX_PAGES,
        next.pages == MAX_PAGES ==> !next.goes_on(),
{
}

/// With a page the counts only grow, each by no more than the events on the page; nothing beyond
/// the window is counted or seen.
pub proof fn counts_never_exceed_the_page(
    s: WalkView,
    page: Seq<RawView>,
    index_diagnostic: bool,
    list: Option<Seq<IndexedContract>>,
    next: WalkView,
    ledger: int,
)
    requires
        s.steps_to(page, index_diagnostic, list, next),
        !s.fails_on(page),
    ensures
        count(s.counts, ledger) <= count(next.counts, ledger) <= count(s.counts, ledger)
            + page.len(),
        ledger > s.window_end ==> count(next.counts, ledger) == count(s.counts, ledger),
        s.last_seen <= next.last_seen,
        next.last_seen <= s.window_end || next.last_seen == s.last_seen,
{
    let taken = page.take(s.halt(page));
    lemma_walked(page, s.window_end, 0);
    lemma_counted_bound(taken, ledger, index_diagnostic, list);
    assert(count(next.counts, ledger) == count(s.counts, ledger) + counted(
        taken,
        ledger,
        index_diagnostic,
        list,
    ));
    assert forall|j: int| 0 <= j < taken.len() implies ledger_of(#[trigger] taken[j]) is Some
        && ledger_of(taken[j])->0 <= s.window_end by {
        assert(taken[j] == page[j]);
    }
    lemma_nothing_beyond(taken, s.window_end, ledger, index_diagnostic, list);
    lemma_highest(taken, s.last_seen as nat, s.window_end);
}

proof fn lemma_walked(page: Seq<RawView>, window_end: u64, i: int)
    requires
        0 <= i <= page.len(),
    ensures
        i <= walked(page, window_end, i) <= page.len(),
        forall|j: int|
            i <= j < walked(page, window_end, i) ==> ledger_of(#[trigger] page[j]) is Some
                && ledger_of(page[j])->0 <= window_end,
    decreases page.len() - i,
{
    if i < page.len() && ledger_of(page[i]) is Some && ledger_of(page[i])->0 <= window_end {
        lemma_walked(page, window_end, i + 1);
    }
}

proof fn lemma_nothing_beyond(
    taken: Seq<RawView>,
    window_end: u64,
    ledger: int,
    index_diagnostic: bool,
    list: Option<Seq<IndexedContract>>,
)
    requires
        forall|j: int|
            0 <= j < taken.len() ==> ledger_of(#[trigger] taken[j]) is Some && ledger_of(
                taken[j],
            )->0 <= window_end,
    ensures
        ledger > window_end ==> counted(taken, ledger, index_diagnostic, list) == 0,
    decreases taken.len(),
{
    if taken.len() > 0 {
        assert forall|j: int| 0 <= j < taken.drop_last().len() implies ledger_of(
            #[trigger] taken.drop_last()[j],
        ) is Some && ledger_of(taken.drop_last()[j])->0 <= window_end by {
            assert(taken.drop_last()[j] == taken[j]);
        }
        lemma_nothing_beyond(taken.drop_last(), window_end, ledger, index_diagnostic, list);
        assert(taken.last() == taken[taken.len() - 1]);
    }
}

proof fn lemma_highest(taken: Seq<RawView>, floor: nat, window_end: u64)
    requires
        forall|j: int|
            0 <= j < taken.len() ==> ledger_of(#[trigger] taken[j]) is Some && ledger_of(
                taken[j],
            )->0 <= window_end,
    ensures
        floor <= highest(taken, floor),
        highest(taken, floor) <= window_end || highest(taken, floor) == floor,
    decreases taken.len(),
{
    if taken.len() > 0 {
        assert forall|j: int| 0 <= j < taken.drop_last().len() implies ledger_of(
            #[trigger] taken.drop_last()[j],
        ) is Some && ledger_of(taken.drop_last()[j])->0 <= window_end by {
            assert(taken.drop_last()[j] == taken[j]);
        }
        lemma_highest(taken.drop_last(), floor, window_end);
        assert(taken.last() == taken[taken.len() - 1]);
    }
}

proof fn lemma_walked_step(page: Seq<RawView>, window_end: u64, i: int)
    requires
        0 <= i < page.len(),
        walked(page, window_end, 0) == walked(page, window_end, i),
        ledger_of(page[i]) is Some,
        ledger_of(page[i])->0 <= window_end,
    ensures
        walked(page, window_end, 0) == walked(page, window_end, i + 1),
{
}

impl Walk {
    /// What holds of every walk: no count is larger than the pages taken can make it.
    pub closed spec fn inv(&self) -> bool {
        &&& self.pages <= MAX_PAGES
        &&& forall|l: int| #[trigger] count(self.per_ledger@, l) <= self.pages * PAGE_BOUND
    }

    /// A walk over the given window that has taken no page.
    pub fn new(window_start: u64, window_end: u64) -> (r: Self)
        ensures
            r.inv(),
            r@.window_start == window_start,
            r@.window_end == window_end,
            r@.cursor is None,
            forall|l: int| #[trigger] count(r@.counts, l) == 0,
            r@.last_seen == 0,
            r@.pages == 0,
            !r@.finished,
    {
        Walk {
            window_start,
            window_end,
            cursor: None,
            per_ledger: HashMap::new(),
            last_seen: 0,
            pages: 0,
            finished: false,
        }
    }

    /// The request for the next page, where there is one: the first is anchored by the start of
    /// the window, the others by the cursor.
    pub fn next_request(&self) -> (r: Option<WalkRequest>)
        ensures
            r is Some <==> self@.goes_on(),
            match r {
                Some(q) => q.start_ledger == (if self@.pages == 0 {
                    Some(self@.window_start)
                } else {
                    None
                }) && opt_view(q.cursor) == self@.cursor && q.limit == 200,
                None => true,
            },
    {
        if self.finished || self.pages >= MAX_PAGES {
            return None;
        }
        Some(
            WalkRequest {
                start_ledger: if self.pages == 0 {
                    Some(self.window_start)
                } else {
                    None
                },
                cursor: opt_clone(&self.cursor),
                limit: PAGE_LIMIT,
            },
        )
    }

    /// Takes a page. It is an error if the walk comes to an event whose ledger cannot be read.
    pub fn take_page(
        &mut self,
        page: &[RawEvent],
        index_diagnostic: bool,
        list: Option<&[IndexedContract]>,
    ) -> (r: Result<(), TridentError>)
        requires
            old(self).inv(),
            old(self)@.goes_on(),
            page@.len() <= PAGE_BOUND,
        ensures
            final(self).inv(),
            match r {
                Ok(_) => !old(self)@.fails_on(raw_views(page@)) && old(self)@.steps_to(
                    raw_views(page@),
                    index_diagnostic,
                    opt_list(list),
                    final(self)@,
                ),
                Err(e) => old(self)@.fails_on(raw_views(page@)) && e is ParseError
                    && e.cause().text() == unreadable_text(
                    raw_views(page@)[old(self)@.halt(raw_views(page@))],
                ) && old(self)@.halts_at(
                    raw_views(page@),
                    index_diagnostic,
                    opt_list(list),
                    final(self)@,
                ) && !final(self)@.finished,
            },
    {
        let ghost before = self@;
        let ghost views = raw_views(page@);
        let ghost rules = opt_list(list);
        let n: usize = page.len();
        self.pages = self.pages + 1;
        let mut i: usize = 0;
        let mut past = false;
        assert(views.take(0) =~= Seq::<RawView>::empty());
        assert(before.pages * PAGE_BOUND + PAGE_BOUND == (before.pages + 1) * PAGE_BOUND)
            by (nonlinear_arith);
        assert((before.pages + 1) * PAGE_BOUND <= u64::MAX) by (nonlinear_arith)
            requires
                before.pages + 1 <= 400,
                PAGE_BOUND == 46_116_860_184_273_879,
        ;
        while i < n && !past
            invariant
                i <= n,
                n == page@.len(),
                n <= PAGE_BOUND,
                views == raw_views(page@),
                rules == opt_list(list),
                before == old(self)@,
                self.window_start == before.window_start,
                self.window_end == before.window_end,
                self.pages == before.pages + 1,
                self.pages <= MAX_PAGES,
                self.finished == before.finished,
                !before.finished,
                before.halt(views) == walked(views, before.window_end, i as int),
                past ==> i < n && before.halt(views) == i && ledger_of(views[i as int]) is Some,
                forall|l: int| #[trigger]
                    count(self.per_ledger@, l) == count(before.counts, l) + counted(
                        views.take(i as int),
                        l,
                        index_diagnostic,
                        rules,
                    ),
                forall|l: int| #[trigger] count(before.counts, l) <= before.pages * PAGE_BOUND,
                self.pages * PAGE_BOUND == before.pages * PAGE_BOUND + PAGE_BOUND,
                before.pages * PAGE_BOUND + PAGE_BOUND <= u64::MAX,
                self.last_seen == highest(views.take(i as int), before.last_seen as nat),
                opt_view(self.cursor) == if i > 0 {
                    Some(views[i - 1].cursor())
                } else {
                    before.cursor
                },
            decreases
                n - i,
                if past {
                    0int
                } else {
                    1int
                },
        {
            let event = &page[i];
            assert(views[i as int] == event@);
            assert(views.take(i + 1).drop_last() =~= views.take(i as int));
            assert(views.take(i + 1).last() == views[i as int]);
            let ledger: u64 = match parse_u64(event.ledger.as_str()) {
                Some(l) => l,
                None => {
                    let mut message = "event ".to_owned();
                    message.append(event.id.as_str());
                    message.append(" reported an unparseable ledger ");
                    let shown = quote(event.ledger.as_str());
                    message.append(shown.as_str());
                    proof {
                        assert forall|l: int| #[trigger]
                            count(self.per_ledger@, l) <= self.pages * PAGE_BOUND by {
                            lemma_counted_bound(views.take(i as int), l, index_diagnostic, rules);
                            assert(count(before.counts, l) <= before.pages * PAGE_BOUND);
                        }
                        if i > 0 {
                            assert(views.take(i as int).last() == views[i - 1]);
                        }
                    }
                    return Err(TridentError::parse(ErrorSource::msg(message)));
                },
            };
            if ledger > self.window_end {
                past = true;
            } else {
                self.cursor = Some(event.page_cursor());
                if ledger > self.last_seen {
                    self.last_seen = ledger;
                }
                let ghost earlier = self.per_ledger@;
                if counts_toward_index(event, ledger, index_diagnostic, list) {
                    let so_far: u64 = count_of(&self.per_ledger, ledger);
                    proof {
                        lemma_counted_bound(
                            views.take(i as int),
                            ledger as int,
                            index_diagnostic,
                            rules,
                        );
                        assert(count(before.counts, ledger as int) <= before.pages * PAGE_BOUND);
                        assert(count(self.per_ledger@, ledger as int) == count(
                            before.counts,
                            ledger as int,
                        ) + counted(
                            views.take(i as int),
                            ledger as int,
                            index_diagnostic,
                            rules,
                        ));
                    }
                    self.per_ledger.insert(ledger, so_far + 1);
                }
                proof {
                    assert forall|l: int| #[trigger]
                        count(self.per_ledger@, l) == count(before.counts, l) + counted(
                            views.take(i + 1),
                            l,
                            index_diagnostic,
                            rules,
                        ) by {
                        assert(count(earlier, l) == count(before.counts, l) + counted(
                            views.take(i as int),
                            l,
                            index_diagnostic,
                            rules,
                        ));
                    }
                    lemma_walked_step(views, before.window_end, i as int);
                }
                i = i + 1;
            }
        }
        proof {
            assert forall|l: int| #[trigger]
                count(self.per_ledger@, l) <= self.pages * PAGE_BOUND by {
                lemma_counted_bound(views.take(i as int), l, index_diagnostic, rules);
                assert(count(before.counts, l) <= before.pages * PAGE_BOUND);
            }
            assert(before.halt(views) == i);
            if i > 0 {
                assert(views.take(i as int).last() == views[i - 1]);
            }
        }
        if past || n < 200 {
            self.finished = true;
        }
        Ok(())
    }

    /// What the walk counted per ledger, the highest ledger it saw, and whether the cap on pages
    /// cut it off.
    pub fn finish(self) -> (r: (HashMap<u64, u64>, u64, bool))
        requires
            !self@.goes_on(),
        ensures
            r.0@ == self@.counts,
            r.1 == self@.last_seen,
            r.2 == self@.truncated(),
    {
        (self.per_ledger, self.last_seen, !self.finished)
    }
}

/// The list says of a contract from which ledger on it is indexed: where it stands on it twice, the
/// first place counts. From that ledger on its events are admitted and before it they are not.
pub proof fn listed_contracts_are_admitted_from_their_ledger(
    list: Seq<IndexedContract>,
    i: int,
    ledger: u64,
)
    requires
        0 <= i < list.len(),
        forall|k: int|
            0 <= k < i ==> (#[trigger] list[k]).contract_id@ != list[i].contract_id@,
        ledger <= i64::MAX,
    ensures
        index_from(list, list[i].contract_id@) == Some(list[i].index_from),
        admitted(Some(list), list[i].contract_id@, ledger) <==> ledger >= list[i].index_from,
    decreases i,
{
    if i > 0 {
        assert(list[0].contract_id@ != list[i].contract_id@);
        let rest = list.skip(1);
        assert(rest[i - 1] == list[i]);
        assert forall|k: int| 0 <= k < i - 1 implies (#[trigger] rest[k]).contract_id@ != rest[i
            - 1].contract_id@ by {
            assert(rest[k] == list[k + 1]);
        }
        listed_contracts_are_admitted_from_their_ledger(rest, i - 1, ledger);
    }
}

/// A contract that a list does not name is never admitted; without a list all are.
pub proof fn unlisted_contracts_are_not_admitted(
    list: Seq<IndexedContract>,
    contract: Seq<char>,
    ledger: u64,
)
    ensures
        admitted(None, contract, ledger),
        (forall|k: int| 0 <= k < list.len() ==> (#[trigger] list[k]).contract_id@ != contract)
            ==> !admitted(Some(list), contract, ledger),
    decreases list.len(),
{
    if list.len() > 0 && (forall|k: int|
        0 <= k < list.len() ==> (#[trigger] list[k]).contract_id@ != contract) {
        assert(list[0].contract_id@ != contract);
        let rest = list.skip(1);
        assert forall|k: int| 0 <= k < rest.len() implies (#[trigger] rest[k]).contract_id@
            != contract by {
            assert(rest[k] == list[k + 1]);
        }
        unlisted_contracts_are_not_admitted(rest, contract, ledger);
    }
}

/// A walk halts on a page at the first event whose ledger cannot be read or lies beyond the window,
/// and takes the whole page where there is none.
pub proof fn walks_halt_at_the_end_of_the_window(page: Seq<RawView>, s: WalkView, at: int)
    requires
        0 <= at <= page.len(),
        forall|k: int|
            0 <= k < at ==> parse_bounded((#[trigger] page[k]).ledger, u64::MAX as nat) is Some
                && parse_bounded(page[k].ledger, u64::MAX as nat)->0 <= s.window_end,
        at < page.len() ==> parse_bounded(page[at].ledger, u64::MAX as nat) is None
            || parse_bounded(page[at].ledger, u64::MAX as nat)->0 > s.window_end,
    ensures
        s.halt(page) == at,
        s.fails_on(page) <==> at < page.len() && parse_bounded(page[at].ledger, u64::MAX as nat)
            is None,
{
    lemma_walked(page, s.window_end, 0);
    lemma_walked_halts(page, s.window_end, 0);
    let h = s.halt(page);
    if h < at {
        assert(parse_bounded(page[h].ledger, u64::MAX as nat) is Some);
    }
    if at < h {
        assert(ledger_of(page[at]) is Some);
    }
}

proof fn lemma_walked_halts(page: Seq<RawView>, window_end: u64, i: int)
    requires
        0 <= i <= page.len(),
    ensures
        ({
            let h = walked(page, window_end, i);
            h < page.len() ==> ledger_of(page[h]) is None || ledger_of(page[h])->0 > window_end
        }),
    decreases page.len() - i,
{
    if i < page.len() && ledger_of(page[i]) is Some && ledger_of(page[i])->0 <= window_end {
        lemma_walked_halts(page, window_end, i + 1);
    }
}

/// Of the events on a page a ledger counts those of its own that the indexer would store, each once.
pub proof fn events_count_at_their_own_ledger(
    a: Seq<RawView>,
    b: Seq<RawView>,
    raw: RawView,
    ledger: u64,
    index_diagnostic: bool,
    list: Option<Seq<IndexedContract>>,
)
    ensures
        counted(a + b, ledger as int, index_diagnostic, list) == counted(
            a,
            ledger as int,
            index_diagnostic,
            list,
        ) + counted(b, ledger as int, index_diagnostic, list),
        counted(seq![raw], ledger as int, index_diagnostic, list) == (if parse_bounded(
            raw.ledger,
            u64::MAX as nat,
        ) == Some(ledger as nat) && (raw.event_type != "diagnostic"@ || index_diagnostic)
            && raw.in_successful_contract_call && admitted(list, raw.contract(), ledger) {
            1nat
        } else {
            0
        }),
    decreases b.len(),
{
    assert(seq![raw].drop_last() =~= Seq::<RawView>::empty());
    assert(seq![raw].last() == raw);
    assert(counted(Seq::<RawView>::empty(), ledger as int, index_diagnostic, list) == 0);
    if b.len() == 0 {
        assert(a + b =~= a);
    } else {
        events_count_at_their_own_ledger(a, b.drop_last(), raw, ledger, index_diagnostic, list);
        assert((a + b).drop_last() =~= a + b.drop_last());
        assert((a + b).last() == b.last());
    }
}

/// The last ledger seen is the highest that an event on the page or the walk before it had.
pub proof fn the_highest_ledger_is_seen(page: Seq<RawView>, floor: nat)
    ensures
        highest(page, floor) >= floor,
        forall|i: int|
            0 <= i < page.len() && ledger_of(#[trigger] page[i]) is Some ==> ledger_of(page[i])->0
                <= highest(page, floor),
        highest(page, floor) == floor || exists|i: int|
            0 <= i < page.len() && ledger_of(#[trigger] page[i]) == Some(highest(page, floor)),
    decreases page.len(),
{
    if page.len() > 0 {
        let rest = page.drop_last();
        let n = page.len() - 1;
        the_highest_ledger_is_seen(rest, floor);
        assert(page[n] == page.last());
        assert forall|i: int|
            0 <= i < page.len() && ledger_of(#[trigger] page[i]) is Some implies ledger_of(
            page[i],
        )->0 <= highest(page, floor) by {
            if i < n {
                assert(rest[i] == page[i]);
            }
        }
        if highest(page, floor) != floor {
            if highest(page, floor) == highest(rest, floor) {
                let i = choose|i: int|
                    0 <= i < rest.len() && ledger_of(#[trigger] rest[i]) == Some(
                        highest(rest, floor),
                    );
                assert(rest[i] == page[i]);
                assert(ledger_of(page[i]) == Some(highest(page, floor)));
            } else {
                assert(ledger_of(page[n]) == Some(highest(page, floor)));
            }
        }
    }
}

/// A walk is over once a page is not full or leads beyond the window, and it takes no more than so
/// many pages.
pub proof fn walks_end_with_the_window(
    s: WalkView,
    page: Seq<RawView>,
    index_diagnostic: bool,
    list: Option<Seq<IndexedContract>>,
    next: WalkView,
)
    requires
        s.steps_to(page, index_diagnostic, list, next),
    ensures
        page.len() < 200 ==> next.finished,
        s.halt(page) < page.len() ==> next.finished,
        page.len() >= 200 && s.halt(page) == page.len() ==> !next.finished,
        next.pages == s.pages + 1,
        next.goes_on() <==> !next.finished && next.pages < 400,
        next.truncated() <==> !next.finished,
        unreadable_text(page[0]) == "event "@ + page[0].id + " reported an unparseable ledger "@
            + quoted(page[0].ledger),
{
}

/// The window ends a margin behind the tip and spans as many ledgers as asked for, as far as there
/// are so many; without a ledger behind the margin there is none.
pub proof fn windows_are_cut_behind_the_margin(
    tip: u64,
    margin: u64,
    span: u64,
    r: Result<(u64, u64), TridentError>,
)
    requires
        call_ensures(settled_window, (tip, margin, span), r),
    ensures
        r is Ok <==> tip > margin,
        r matches Ok((start, end)) ==> {
            &&& end + margin == tip
            &&& 1 <= start <= end
            &&& 0 < span <= end ==> end - start + 1 == span
            &&& span > end ==> start == 1
        },
{
}

/// What can be compared ends with the window, or with the cursor where that is before it, and
/// nothing can be where that is before the start of the window.
pub proof fn comparisons_end_at_the_cursor(
    start: u64,
    end: u64,
    cursor: u64,
    r: Result<u64, TridentError>,
)
    requires
        call_ensures(indexed_end, (start, end, cursor), r),
    ensures
        r matches Ok(e) ==> e <= end && e <= cursor && (e == end || e == cursor) && start <= e,
        start <= end && start <= cursor ==> r is Ok,
        r matches Err(e) ==> e is RpcError,
{
}

/// A walk that was cut off lets one compare up to the ledger before the last it saw; one that came
/// to its end, the whole window.
pub proof fn walks_cut_off_lose_their_last_ledger(
    start: u64,
    end: u64,
    truncated: bool,
    last_seen: u64,
    r: Result<u64, TridentError>,
)
    requires
        call_ensures(comparable_end, (start, end, truncated, last_seen), r),
    ensures
        !truncated ==> r is Ok && r->Ok_0 == end,
        truncated && last_seen > start ==> r is Ok && r->Ok_0 + 1 == last_seen,
        truncated && start > 0 && last_seen <= start ==> r is Err,
{
}

/// The first request of a walk starts at its window, and any other resumes at the cursor.
pub proof fn walks_ask_for_their_window(w: Walk, q: WalkRequest)
    requires
        call_ensures(Walk::next_request, (&w,), Some(q)),
    ensures
        w@.pages == 0 ==> q.start_ledger == Some(w@.window_start),
        w@.pages > 0 ==> q.start_ledger is None,
        opt_view(q.cursor) == w@.cursor,
        q.limit == 200,
        !w@.finished && w@.pages < 400,
{
}

} // verus!
