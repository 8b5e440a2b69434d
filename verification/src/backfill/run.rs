//! The course of a backfill: how a range is shared among workers, and what a worker does with
//! each answer of the RPC.
use vstd::arithmetic::div_mod::lemma_fundamental_div_mod;
use vstd::prelude::*;

use crate::backfill::parser::parsed;
use crate::backfill::parser::Parser;
use crate::errors::TridentError;
use crate::raw::RawEvent;
use crate::raw::RawView;
use crate::text::opt_view;
use crate::text::parse_bounded;
use crate::text::parse_u64;
use crate::text::same;
use crate::types::EventView;
use crate::types::SorobanEvent;

verus! {

broadcast use vstd::string::group_string_axioms;

/// The events of a full page. A page with fewer is the last.
pub const PAGE_SIZE: usize = 200;

/// After how many failures in a row a worker of the queue gives a range up.
pub const MAX_CONSECUTIVE_RPC_FAILURES: u32 = 10;

/// The range to backfill, where both ends are given and in order.
pub fn requested_range(from: Option<u64>, to: Option<u64>) -> (r: Result<(u64, u64), &'static str>)
    ensures
        match r {
            Ok((f, t)) => from == Some(f) && to == Some(t) && f <= t,
            Err(e) => if from is None || to is None {
                e@
                    == "--from-ledger and --to-ledger are required unless --from-queue is set"@
            } else {
                to->0 < from->0 && e@ == "--to-ledger must be >= --from-ledger"@
            },
        },
{
    match (from, to) {
        (Some(f), Some(t)) => {
            if t < f {
                return Err("--to-ledger must be >= --from-ledger");
            }
            Ok((f, t))
        },
        _ => Err("--from-ledger and --to-ledger are required unless --from-queue is set"),
    }
}

// ---------------------------------------------------------------------------------------------
// Sharing a range.
// ---------------------------------------------------------------------------------------------
/// How many ledgers each worker gets: an equal share, rounded up.
pub open spec fn chunk_size(from: int, to: int, workers: int) -> int {
    (to - from + workers) / workers
}

/// The chunk with index `i`.
pub open spec fn chunk(from: int, to: int, size: int, i: int) -> (int, int) {
    let end = from + (i + 1) * size - 1;
    (
        from + i * size,
        if end < to {
            end
        } else {
            to
        },
    )
}

/// The number of chunks that a range is cut into.
pub open spec fn chunk_count(from: int, to: int, size: int) -> int {
    (to - from) / size + 1
}

proof fn lemma_chunk_size(from: int, to: int, workers: int)
    requires
        0 <= from <= to,
        workers > 0,
    ensures
        1 <= chunk_size(from, to, workers) <= to - from + 1,
        chunk_size(from, to, workers) * workers >= to - from + 1,
{
    let n = to - from + workers;
    let size = chunk_size(from, to, workers);
    lemma_fundamental_div_mod(n, workers);
    assert(n == workers * size + n % workers);
    assert(size >= 1) by (nonlinear_arith)
        requires
            n == workers * size + n % workers,
            n >= workers,
            0 <= n % workers < workers,
            workers > 0,
    ;
    assert(size * workers >= to - from + 1) by (nonlinear_arith)
        requires
            n == to - from + workers,
            n == workers * size + n % workers,
            n % workers < workers,
    ;
    assert(size <= to - from + 1) by (nonlinear_arith)
        requires
            n == to - from + workers,
            n == workers * size + n % workers,
            0 <= n % workers,
            to - from >= 0,
            workers >= 1,
    ;
}

/// Cuts a range of ledgers into chunks of equal size for the workers; only the last may be smaller.
pub fn chunks(from: u64, to: u64, workers: u64) -> (r: Vec<(u64, u64)>)
    requires
        from <= to,
        workers > 0,
        to - from < u64::MAX,
    ensures
        ({
            let size = chunk_size(from as int, to as int, workers as int);
            &&& r@.len() == chunk_count(from as int, to as int, size)
            &&& forall|i: int|
                0 <= i < r@.len() ==> ((#[trigger] r@[i]).0 as int, r@[i].1 as int) == chunk(
                    from as int,
                    to as int,
                    size,
                    i,
                )
        }),
{
    let total: u64 = to - from + 1;
    let ghost f = from as int;
    let ghost t = to as int;
    proof {
        lemma_chunk_size(f, t, workers as int);
        lemma_fundamental_div_mod(total as int, workers as int);
        lemma_fundamental_div_mod(t - f + workers, workers as int);
    }
    let whole: u64 = total / workers;
    assert(total as int % workers as int > 0 ==> whole < total) by (nonlinear_arith)
        requires
            workers >= 1,
            whole >= 0,
            total as int == workers * whole + total as int % workers as int,
    ;
    let size: u64 = if total % workers == 0 {
        whole
    } else {
        whole + 1
    };
    proof {
        let n = t - f + workers as int;
        let q = chunk_size(f, t, workers as int);
        let w = workers as int;
        assert(n == w * q + n % w);
        assert(total as int == w * whole + (total as int) % w);
        assert(size as int == q) by (nonlinear_arith)
            requires
                w > 0,
                n == total as int - 1 + w,
                n == w * q + n % w,
                0 <= n % w < w,
                total as int == w * whole + (total as int) % w,
                0 <= (total as int) % w < w,
                size as int == if (total as int) % w == 0 {
                    whole as int
                } else {
                    whole + 1
                },
        ;
    }
    let mut out: Vec<(u64, u64)> = Vec::new();
    let mut start: u64 = from;
    let ghost s = size as int;
    proof {
        lemma_fundamental_div_mod(t - f, s);
    }
    assert(0 * s == 0);
    while to - start >= size
        invariant
            from <= start <= to,
            f == from,
            t == to,
            s == size,
            s >= 1,
            start == f + out@.len() * s,
            forall|i: int|
                0 <= i < out@.len() ==> ((#[trigger] out@[i]).0 as int, out@[i].1 as int) == chunk(
                    f,
                    t,
                    s,
                    i,
                ),
        decreases to - start,
    {
        let end: u64 = start + (size - 1);
        let ghost k = out@.len() as int;
        assert((k + 1) * s == k * s + s) by (nonlinear_arith);
        out.push((start, end));
        start = end + 1;
    }
    let ghost k = out@.len() as int;
    assert((k + 1) * s == k * s + s) by (nonlinear_arith);
    proof {
        let q = (t - f) / s;
        assert(t - f == s * q + (t - f) % s);
        assert(q == k) by (nonlinear_arith)
            requires
                s >= 1,
                t - f == s * q + (t - f) % s,
                0 <= (t - f) % s < s,
                k * s <= t - f < k * s + s,
        ;
    }
    out.push((start, to));
    out
}

/// Every ledger of the range is in just one chunk, the chunks are in order and leave nothing out,
/// and there are no more of them than workers.
pub proof fn chunks_partition_the_range(from: int, to: int, workers: int, ledger: int, i: int)
    requires
        0 <= from <= to,
        workers > 0,
    ensures
        ({
            let size = chunk_size(from, to, workers);
            let count = chunk_count(from, to, size);
            let home = (ledger - from) / size;
            &&& 1 <= count <= workers
            &&& from <= ledger <= to ==> 0 <= home < count && chunk(from, to, size, home).0
                <= ledger <= chunk(from, to, size, home).1
            &&& from <= ledger <= to && 0 <= i < count && chunk(from, to, size, i).0 <= ledger
                <= chunk(from, to, size, i).1 ==> i == home
            &&& 0 <= i < count ==> from <= chunk(from, to, size, i).0 <= chunk(
                from,
                to,
                size,
                i,
            ).1 <= to
            &&& 0 <= i < count - 1 ==> chunk(from, to, size, i + 1).0 == chunk(
                from,
                to,
                size,
                i,
            ).1 + 1
            &&& chunk(from, to, size, 0).0 == from
            &&& chunk(from, to, size, count - 1).1 == to
        }),
{
    let size = chunk_size(from, to, workers);
    let count = chunk_count(from, to, size);
    lemma_chunk_size(from, to, workers);
    lemma_fundamental_div_mod(to - from, size);
    let q = (to - from) / size;
    assert(to - from == size * q + (to - from) % size);
    assert(0 <= q < workers) by (nonlinear_arith)
        requires
            size >= 1,
            to - from >= 0,
            to - from == size * q + (to - from) % size,
            0 <= (to - from) % size < size,
            size * workers >= to - from + 1,
    ;
    assert(0 * size == 0);
    assert(q * size == size * q) by (nonlinear_arith);
    assert((q + 1) * size == size * q + size) by (nonlinear_arith);
    assert((i + 1) * size == i * size + size) by (nonlinear_arith);
    assert((i + 2) * size == i * size + 2 * size) by (nonlinear_arith);
    if 0 <= i < count {
        assert(i * size <= q * size) by (nonlinear_arith)
            requires
                i <= q,
                size >= 1,
        ;
        assert(i * size >= 0) by (nonlinear_arith)
            requires
                i >= 0,
                size >= 1,
        ;
    }
    if 0 <= i < count - 1 {
        assert((i + 1) * size <= q * size) by (nonlinear_arith)
            requires
                i + 1 <= q,
                size >= 1,
        ;
    }
    if from <= ledger <= to {
        let d = ledger - from;
        let home = d / size;
        lemma_fundamental_div_mod(d, size);
        assert(d == size * home + d % size);
        assert(home * size == size * home) by (nonlinear_arith);
        assert((home + 1) * size == size * home + size) by (nonlinear_arith);
        assert(0 <= home <= q) by (nonlinear_arith)
            requires
                size >= 1,
                0 <= d <= to - from,
                d == size * home + d % size,
                0 <= d % size < size,
                to - from == size * q + (to - from) % size,
                0 <= (to - from) % size < size,
        ;
        if 0 <= i < count && chunk(from, to, size, i).0 <= ledger <= chunk(from, to, size, i).1 {
            assert(i == home) by (nonlinear_arith)
                requires
                    size >= 1,
                    i * size <= d <= i * size + size - 1,
                    d == size * home + d % size,
                    0 <= d % size < size,
            ;
        }
    }
}

// ---------------------------------------------------------------------------------------------
// Walking a range.
// ---------------------------------------------------------------------------------------------
/// A worker on its way through a range.
#[derive(Debug)]
pub struct RangeRun {
    from_ledger: u64,
    to_ledger: u64,
    seq: u64,
    cursor: Option<String>,
    failures: u32,
    max_failures: Option<u32>,
    finished: bool,
}

/// Where a worker stands.
pub struct RunView {
    pub from_ledger: u64,
    pub to_ledger: u64,
    /// The ledger after the last one that a page has reached, and at first the first of the range.
    pub seq: u64,
    pub cursor: Option<Seq<char>>,
    /// The failures in a row.
    pub failures: u32,
    /// The failures in a row that are too many, where there is such a number.
    pub max_failures: Option<u32>,
    pub finished: bool,
}

impl View for RangeRun {
    type V = RunView;

    closed spec fn view(&self) -> RunView {
        RunView {
            from_ledger: self.from_ledger,
            to_ledger: self.to_ledger,
            seq: self.seq,
            cursor: opt_view(self.cursor),
            failures: self.failures,
            max_failures: self.max_failures,
            finished: self.finished,
        }
    }
}

impl RunView {
    /// A worker at the start of a range. In an empty range there is nothing to do.
    pub open spec fn start(from_ledger: u64, to_ledger: u64, max_failures: Option<u32>) -> RunView {
        RunView {
            from_ledger,
            to_ledger,
            seq: from_ledger,
            cursor: None,
            failures: 0,
            max_failures,
            finished: from_ledger > to_ledger,
        }
    }

    /// Whether there is another page to fetch.
    pub open spec fn goes_on(self) -> bool {
        !self.finished
    }

    /// The ledger after a page: the one after that of the last event, or simply the next one where
    /// that cannot be read.
    pub open spec fn next_seq(self, page: Seq<RawView>) -> int {
        match parse_bounded(page.last().ledger, u64::MAX as nat) {
            Some(last) => last as int + 1,
            None => self.seq + 1,
        }
    }

    /// By how many ledgers a page advances the run.
    pub open spec fn advance(self, page: Seq<RawView>) -> int {
        if page.len() == 0 {
            0
        } else {
            let next = self.next_seq(page);
            if next > self.seq {
                next - self.seq
            } else {
                1
            }
        }
    }

    /// Where the run stands after a page. It ends with a page that is not full, and with one that
    /// goes beyond the range: a full page that ends in the last ledger may leave some of that
    /// ledger to the next.
    pub open spec fn after_page(self, page: Seq<RawView>) -> RunView {
        if page.len() == 0 {
            RunView { failures: 0, finished: true, ..self }
        } else {
            RunView {
                failures: 0,
                seq: self.next_seq(page) as u64,
                finished: page.len() < PAGE_SIZE || self.next_seq(page) > self.to_ledger + 1,
                cursor: if page.len() < PAGE_SIZE {
                    self.cursor
                } else {
                    Some(page.last().cursor())
                },
                ..self
            }
        }
    }

    /// Whether one more failure is one too many.
    pub open spec fn gives_up(self) -> bool {
        self.max_failures is Some && self.failures + 1 >= self.max_failures->0
    }
}

/// A page takes the run on by at least one ledger, and where its last event is not before the
/// request, by just as many as it reports.
pub proof fn pages_advance_the_run(run: RunView, page: Seq<RawView>)
    requires
        page.len() > 0,
        run.next_seq(page) <= u64::MAX,
    ensures
        run.advance(page) >= 1,
        run.next_seq(page) > run.seq ==> run.after_page(page).seq == run.seq + run.advance(page),
        run.after_page(page).failures == 0,
        page.len() < PAGE_SIZE ==> !run.after_page(page).goes_on(),
{
}

/// A run over a range ends only with a page that is not full, behind which the RPC has no more, or
/// with one whose last event is of a ledger beyond the range: nothing of the range is left out.
/// Where that ledger cannot be read, the ledger is taken to be the one that comes next.
pub proof fn runs_end_behind_the_range(run: RunView, page: Seq<RawView>)
    requires
        run.goes_on(),
        page.len() > 0 ==> run.next_seq(page) <= u64::MAX,
    ensures
        run.after_page(page).goes_on() <==> page.len() >= PAGE_SIZE && match parse_bounded(
            page.last().ledger,
            u64::MAX as nat,
        ) {
            Some(last) => last <= run.to_ledger,
            None => run.seq <= run.to_ledger,
        },
{
}

impl RangeRun {
    /// A worker at the start of a range. Without a number of failures in a row that are too many it
    /// tries for ever.
    pub fn new(from_ledger: u64, to_ledger: u64, max_failures: Option<u32>) -> (r: Self)
        ensures
            r@ == RunView::start(from_ledger, to_ledger, max_failures),
    {
        RangeRun {
            from_ledger,
            to_ledger,
            seq: from_ledger,
            cursor: None,
            failures: 0,
            max_failures,
            finished: from_ledger > to_ledger,
        }
    }

    /// The first and the last ledger of the range.
    pub fn range(&self) -> (r: (u64, u64))
        ensures
            r == (self@.from_ledger, self@.to_ledger),
    {
        (self.from_ledger, self.to_ledger)
    }

    /// The next request, where there is one: the ledger to start from, or the cursor to go on from.
    /// The RPC takes only one of the two.
    pub fn next_request(&self) -> (r: Option<(Option<u64>, Option<String>)>)
        ensures
            match r {
                Some((seq, cursor)) => self@.goes_on() && opt_view(cursor) == self@.cursor && seq
                    == if self@.cursor is Some {
                    None
                } else {
                    Some(self@.seq)
                },
                None => !self@.goes_on(),
            },
    {
        if self.finished {
            return None;
        }
        match &self.cursor {
            Some(cursor) => Some((None, Some(cursor.clone()))),
            None => Some((Some(self.seq), None)),
        }
    }

    /// Whether the ledger after a page can be told: there is none after the largest number.
    pub fn page_fits(&self, page: &[RawEvent]) -> (r: bool)
        ensures
            r == (page@.len() > 0 ==> self@.next_seq(page@.map_values(|e: RawEvent| e@))
                <= u64::MAX),
    {
        let n: usize = page.len();
        if n == 0 {
            return true;
        }
        assert(page@.map_values(|e: RawEvent| e@).last() == page@[n - 1]@);
        match parse_u64(page[n - 1].ledger.as_str()) {
            Some(last) => last < u64::MAX,
            None => self.seq < u64::MAX,
        }
    }

    /// Takes a page, and returns by how many ledgers it advances the run.
    pub fn take_page(&mut self, page: &[RawEvent]) -> (r: u64)
        requires
            old(self)@.goes_on(),
            page@.len() > 0 ==> old(self)@.next_seq(page@.map_values(|e: RawEvent| e@)) <= u64::MAX,
        ensures
            final(self)@ == old(self)@.after_page(page@.map_values(|e: RawEvent| e@)),
            r == old(self)@.advance(page@.map_values(|e: RawEvent| e@)),
    {
        self.failures = 0;
        let n: usize = page.len();
        if n == 0 {
            self.finished = true;
            return 0;
        }
        assert(page@.map_values(|e: RawEvent| e@).last() == page@[n - 1]@);
        let last = &page[n - 1];
        let advanced: u64 = match parse_u64(last.ledger.as_str()) {
            Some(last_seq) => {
                let advanced: u64 = if last_seq >= self.seq {
                    last_seq - self.seq + 1
                } else {
                    1
                };
                self.seq = last_seq + 1;
                advanced
            },
            None => {
                self.seq = self.seq + 1;
                1
            },
        };
        if self.seq > self.to_ledger && self.seq - self.to_ledger > 1 {
            self.finished = true;
        }
        if n < PAGE_SIZE {
            self.finished = true;
        } else {
            self.cursor = Some(last.page_cursor());
        }
        advanced
    }

    /// Whether another failure can be counted: there is none after the largest number.
    pub fn counts_failures(&self) -> (r: bool)
        ensures
            r == (self@.failures < u32::MAX),
    {
        self.failures < u32::MAX
    }

    /// Counts a failure of the RPC. The answer is whether the range is given up.
    pub fn take_failure(&mut self) -> (r: bool)
        requires
            old(self)@.failures < u32::MAX,
        ensures
            final(self)@ == (RunView { failures: (old(self)@.failures + 1) as u32, ..old(self)@ }),
            r == old(self)@.gives_up(),
    {
        self.failures = self.failures + 1;
        match self.max_failures {
            Some(max) => self.failures >= max,
            None => false,
        }
    }
}

/// The event to store for a raw one: nothing where the parser skips it, it is of another contract
/// than the one asked for, or its ledger is outside the range; or the message of the error.
pub open spec fn selected(
    raw: RawView,
    index_diagnostic: bool,
    contract: Option<Seq<char>>,
    from: u64,
    to: u64,
) -> Result<Option<EventView>, Seq<char>> {
    match parsed(raw, index_diagnostic) {
        Ok(Some(event)) => if contract is Some && contract->0 != event.contract_id {
            Ok(None)
        } else if event.ledger_sequence < from || event.ledger_sequence > to {
            Ok(None)
        } else {
            Ok(Some(event))
        },
        other => other,
    }
}

/// What is selected is of the range and of the contract asked for.
pub proof fn selections_stay_in_the_range(
    raw: RawView,
    index_diagnostic: bool,
    contract: Option<Seq<char>>,
    from: u64,
    to: u64,
)
    ensures
        match selected(raw, index_diagnostic, contract, from, to) {
            Ok(Some(event)) => from <= event.ledger_sequence <= to && (contract is Some
                ==> event.contract_id == contract->0),
            _ => true,
        },
{
}

/// The event to store for a raw one.
pub fn select(
    parser: &Parser,
    raw: &RawEvent,
    contract: Option<&str>,
    from: u64,
    to: u64,
) -> (r: Result<Option<SorobanEvent>, TridentError>)
    ensures
        ({
            let wanted = match contract {
                Some(c) => Some(c@),
                None => None,
            };
            match r {
                Ok(None) => selected(raw@, parser.index_diagnostic, wanted, from, to) == Ok::<
                    Option<EventView>,
                    Seq<char>,
                >(None),
                Ok(Some(event)) => selected(raw@, parser.index_diagnostic, wanted, from, to)
                    == Ok::<
                    Option<EventView>,
                    Seq<char>,
                >(Some(event@)),
                Err(e) => e is ParseError && selected(
                    raw@,
                    parser.index_diagnostic,
                    wanted,
                    from,
                    to,
                ) == Err::<Option<EventView>, Seq<char>>(e.cause().text()),
            }
        }),
{
    match parser.parse_event(raw) {
        Ok(Some(event)) => {
            if let Some(c) = contract {
                if !same(event.contract_id.as_str(), c) {
                    return Ok(None);
                }
            }
            if event.ledger_sequence < from || event.ledger_sequence > to {
                return Ok(None);
            }
            Ok(Some(event))
        },
        other => other,
    }
}

/// What is done with an event of a page.
#[derive(Debug)]
pub enum EventAction {
    /// Nothing: it was not selected.
    Pass,
    /// It is only counted and shown.
    Show(SorobanEvent),
    /// It is written to the database.
    Insert(SorobanEvent),
    /// It does not parse: a warning is given, and the page goes on.
    Warn(TridentError),
}

/// What is done with an event by what came of selecting it. A dry run writes nothing.
pub fn event_action(selection: Result<Option<SorobanEvent>, TridentError>, dry_run: bool) -> (r:
    EventAction)
    ensures
        r == (match selection {
            Ok(None) => EventAction::Pass,
            Ok(Some(event)) => if dry_run {
                EventAction::Show(event)
            } else {
                EventAction::Insert(event)
            },
            Err(e) => EventAction::Warn(e),
        }),
{
    match selection {
        Ok(None) => EventAction::Pass,
        Ok(Some(event)) => if dry_run {
            EventAction::Show(event)
        } else {
            EventAction::Insert(event)
        },
        Err(e) => EventAction::Warn(e),
    }
}

/// An event is selected where it parses, lies in the range, its ends included, and is of the
/// contract asked for, if one was; what does not parse is handed on as the error that it is.
pub proof fn selections_leave_nothing_out(
    raw: RawView,
    index_diagnostic: bool,
    contract: Option<Seq<char>>,
    from: u64,
    to: u64,
    event: EventView,
    e: Seq<char>,
)
    ensures
        parsed(raw, index_diagnostic) == Ok::<Option<EventView>, Seq<char>>(Some(event)) && from
            <= event.ledger_sequence <= to && (contract is None || contract->0
            == event.contract_id) ==> selected(raw, index_diagnostic, contract, from, to) == Ok::<
            Option<EventView>,
            Seq<char>,
        >(Some(event)),
        parsed(raw, index_diagnostic) == Ok::<Option<EventView>, Seq<char>>(Some(event)) && !(from
            <= event.ledger_sequence <= to && (contract is None || contract->0
            == event.contract_id)) ==> selected(raw, index_diagnostic, contract, from, to) == Ok::<
            Option<EventView>,
            Seq<char>,
        >(None),
        parsed(raw, index_diagnostic) == Ok::<Option<EventView>, Seq<char>>(None) ==> selected(
            raw,
            index_diagnostic,
            contract,
            from,
            to,
        ) == Ok::<Option<EventView>, Seq<char>>(None),
        parsed(raw, index_diagnostic) == Err::<Option<EventView>, Seq<char>>(e) ==> selected(
            raw,
            index_diagnostic,
            contract,
            from,
            to,
        ) == Err::<Option<EventView>, Seq<char>>(e),
{
}

/// A run starts at the first ledger of its range, without a cursor and without failures, and has
/// nothing to do in an empty range. It gives up with the last failure in a row that it may have.
pub proof fn runs_start_at_their_range(from: u64, to: u64, max_failures: Option<u32>, run: RunView)
    ensures
        RunView::start(from, to, max_failures).from_ledger == from,
        RunView::start(from, to, max_failures).to_ledger == to,
        RunView::start(from, to, max_failures).seq == from,
        RunView::start(from, to, max_failures).cursor is None,
        RunView::start(from, to, max_failures).failures == 0,
        RunView::start(from, to, max_failures).max_failures == max_failures,
        RunView::start(from, to, max_failures).goes_on() <==> from <= to,
        run.max_failures is None ==> !run.gives_up(),
        run.max_failures is Some ==> (run.gives_up() <==> run.max_failures->0 <= run.failures + 1),
{
}

/// After a page the run stands behind the ledger of the last event, and goes on from the cursor of
/// that event where the page is full. It keeps its range.
pub proof fn pages_move_the_run(run: RunView, page: Seq<RawView>, last: nat)
    ensures
        page.len() == 0 ==> !run.after_page(page).goes_on() && run.after_page(page).seq == run.seq
            && run.after_page(page).cursor == run.cursor && run.advance(page) == 0,
        page.len() > 0 && last < u64::MAX && parse_bounded(page.last().ledger, u64::MAX as nat)
            == Some(last) ==> run.after_page(page).seq == last + 1,
        page.len() > 0 && run.seq < u64::MAX && parse_bounded(page.last().ledger, u64::MAX as nat)
            is None ==> run.after_page(page).seq == run.seq + 1 && run.advance(page) == 1,
        page.len() >= 200 ==> run.after_page(page).cursor == Some(page.last().cursor()),
        0 < page.len() < 200 ==> run.after_page(page).cursor == run.cursor,
        run.after_page(page).failures == 0,
        run.after_page(page).from_ledger == run.from_ledger,
        run.after_page(page).to_ledger == run.to_ledger,
        run.after_page(page).max_failures == run.max_failures,
{
}

/// A range is taken as it was asked for, its first ledger first, and refused where an end is
/// missing or the last comes before the first.
pub proof fn ranges_are_taken_as_asked(
    from: Option<u64>,
    to: Option<u64>,
    r: Result<(u64, u64), &'static str>,
)
    requires
        call_ensures(requested_range, (from, to), r),
    ensures
        from is Some && to is Some && from->0 <= to->0 ==> r is Ok && r->Ok_0 == (from->0, to->0),
        from is None || to is None ==> r is Err && r->Err_0@
            == "--from-ledger and --to-ledger are required unless --from-queue is set"@,
        from is Some && to is Some && from->0 > to->0 ==> r is Err && r->Err_0@
            == "--to-ledger must be >= --from-ledger"@,
{
}

/// A run asks from its ledger on as long as it has no cursor, and then by the cursor alone.
pub proof fn runs_ask_by_ledger_or_cursor(
    run: RangeRun,
    r: Option<(Option<u64>, Option<String>)>,
)
    requires
        call_ensures(RangeRun::next_request, (&run,), r),
    ensures
        run@.finished <==> r is None,
        r matches Some((seq, cursor)) ==> {
            &&& run@.cursor is None ==> seq == Some(run@.seq) && cursor is None
            &&& run@.cursor is Some ==> seq is None && opt_view(cursor) == run@.cursor
        },
{
}

/// What is selected is written, or shown where nothing is to be written; what is not selected is
/// passed over and what does not parse is warned of.
pub proof fn selections_are_written_or_shown(
    selection: Result<Option<SorobanEvent>, TridentError>,
    dry_run: bool,
    r: EventAction,
)
    requires
        call_ensures(event_action, (selection, dry_run), r),
    ensures
        selection matches Ok(Some(event)) ==> if dry_run {
            r == EventAction::Show(event)
        } else {
            r == EventAction::Insert(event)
        },
        selection matches Ok(None) ==> r is Pass,
        selection matches Err(e) ==> r == EventAction::Warn(e),
{
}

/// The chunks of a range are no more than the workers, hold every ledger of it, and no other.
pub proof fn chunks_hold_the_whole_range(
    from: u64,
    to: u64,
    workers: u64,
    r: Vec<(u64, u64)>,
    ledger: u64,
)
    requires
        call_ensures(chunks, (from, to, workers), r),
        from <= to,
        workers > 0,
    ensures
        1 <= r@.len() <= workers,
        from <= ledger <= to <==> exists|i: int|
            0 <= i < r@.len() && (#[trigger] r@[i]).0 <= ledger <= r@[i].1,
{
    let f = from as int;
    let t = to as int;
    let size = chunk_size(f, t, workers as int);
    let home = (ledger - f) / size;
    chunks_partition_the_range(f, t, workers as int, ledger as int, home);
    if from <= ledger <= to {
        assert((r@[home].0 as int, r@[home].1 as int) == chunk(f, t, size, home));
        assert(r@[home].0 <= ledger <= r@[home].1);
    }
    assert forall|i: int| 0 <= i < r@.len() && (#[trigger] r@[i]).0 <= ledger <= r@[i].1 implies from
        <= ledger <= to by {
        assert((r@[i].0 as int, r@[i].1 as int) == chunk(f, t, size, i));
        chunks_partition_the_range(f, t, workers as int, ledger as int, i);
    }
}

/// A failure is counted, and is one too many once there are as many in a row as the run may have.
pub proof fn failures_in_a_row_end_a_run(run: &mut RangeRun, gives_up: bool, max: u32)
    requires
        call_ensures(RangeRun::take_failure, (run,), gives_up),
        old(run)@.failures < u32::MAX,
        old(run)@.max_failures == Some(max),
    ensures
        final(run)@.failures == old(run)@.failures + 1,
        gives_up <==> final(run)@.failures >= max,
        final(run)@.seq == old(run)@.seq,
        final(run)@.cursor == old(run)@.cursor,
{
}

} // verus!
