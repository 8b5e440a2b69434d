//! Comparison of what was indexed with what the RPC reports, ledger by ledger.
use std::collections::HashMap;

use vstd::prelude::*;

use crate::wide::wrap_u64;
use crate::wide::wrapped_u64;

verus! {

broadcast use vstd::std_specs::hash::group_hash_axioms;

/// A run of consecutive ledgers whose indexed counts disagree with the RPC.
#[derive(Debug, Clone, Copy, PartialEq, Eq, Structural)]
pub struct DiscrepantRange {
    pub from_ledger: u64,
    pub to_ledger: u64,
    /// Events that the RPC reports for the run, by the rules that select what is indexed.
    pub rpc_events: u64,
    /// Events that the database accounts for: the indexed ones and the ones that did not decode.
    pub db_events: u64,
}

/// The outcome of one comparison.
#[derive(Debug)]
pub struct ReconcileReport {
    pub window_start: u64,
    pub window_end: u64,
    pub rpc_events: u64,
    pub db_events: u64,
    pub discrepant_ranges: Vec<DiscrepantRange>,
    /// Whether the walk over the RPC ended before the window that was asked for; `window_end` is
    /// then the last ledger that was walked whole.
    pub truncated: bool,
}

/// What there is to tell of a comparison.
#[derive(Debug, Clone, Copy, PartialEq, Eq, Structural)]
pub struct ReportNotice {
    pub discrepant_ledgers: u64,
    pub missing_events: u64,
    pub extra_events: u64,
    /// Whether the counts agree throughout the window.
    pub clean: bool,
    /// Whether ledgers behind the window were left out because the walk was cut off.
    pub clamped: bool,
}

/// The events of a ledger, none where the ledger is not in the map.
pub open spec fn count(m: Map<u64, u64>, ledger: int) -> nat {
    if 0 <= ledger <= u64::MAX && m.dom().contains(ledger as u64) {
        m[ledger as u64] as nat
    } else {
        0
    }
}

/// The events of all ledgers from `from` up to but not including `to`.
pub open spec fn total(m: Map<u64, u64>, from: int, to: int) -> nat
    decreases to - from,
{
    if to <= from {
        0
    } else {
        total(m, from, to - 1) + count(m, to - 1)
    }
}

/// Whether the two sides disagree about a ledger.
pub open spec fn disagrees(rpc: Map<u64, u64>, db: Map<u64, u64>, ledger: int) -> bool {
    count(rpc, ledger) != count(db, ledger)
}

/// Whether a ledger lies in one of the ranges.
pub open spec fn in_ranges(ranges: Seq<DiscrepantRange>, ledger: int) -> bool {
    exists|i: int|
        0 <= i < ranges.len() && (#[trigger] ranges[i]).from_ledger <= ledger
            <= ranges[i].to_ledger
}

/// Whether a range is a run of disagreeing ledgers in the window, with the counts of its ledgers.
pub open spec fn is_run(
    r: DiscrepantRange,
    rpc: Map<u64, u64>,
    db: Map<u64, u64>,
    start: int,
    end: int,
) -> bool {
    &&& start <= r.from_ledger <= r.to_ledger < end
    &&& forall|l: int| r.from_ledger <= l <= r.to_ledger ==> #[trigger] disagrees(rpc, db, l)
    &&& r.rpc_events == total(rpc, r.from_ledger as int, r.to_ledger + 1)
    &&& r.db_events == total(db, r.from_ledger as int, r.to_ledger + 1)
}

/// Whether the ranges are exactly the runs of disagreeing ledgers in the window, in order, each as
/// long as it can be: an agreeing ledger lies between each two.
pub open spec fn are_the_runs(
    ranges: Seq<DiscrepantRange>,
    rpc: Map<u64, u64>,
    db: Map<u64, u64>,
    start: int,
    end: int,
) -> bool {
    &&& forall|i: int| 0 <= i < ranges.len() ==> is_run(#[trigger] ranges[i], rpc, db, start, end)
    &&& forall|i: int, j: int|
        0 <= i < j < ranges.len() ==> (#[trigger] ranges[i]).to_ledger + 1 < (
        #[trigger] ranges[j]).from_ledger
    &&& forall|l: int|
        start <= l < end && #[trigger] disagrees(rpc, db, l) ==> in_ranges(ranges, l)
}

/// The events that the RPC has and the database lacks, summed over the ranges.
pub open spec fn missing(ranges: Seq<DiscrepantRange>) -> nat
    decreases ranges.len(),
{
    if ranges.len() == 0 {
        0
    } else {
        let r = ranges.last();
        missing(ranges.drop_last()) + if r.rpc_events > r.db_events {
            (r.rpc_events - r.db_events) as nat
        } else {
            0
        }
    }
}

/// The events that the database has and the RPC lacks, summed over the ranges.
pub open spec fn extra(ranges: Seq<DiscrepantRange>) -> nat
    decreases ranges.len(),
{
    if ranges.len() == 0 {
        0
    } else {
        let r = ranges.last();
        extra(ranges.drop_last()) + if r.db_events > r.rpc_events {
            (r.db_events - r.rpc_events) as nat
        } else {
            0
        }
    }
}

/// The number of ledgers in the ranges.
pub open spec fn ledgers(ranges: Seq<DiscrepantRange>) -> int
    decreases ranges.len(),
{
    if ranges.len() == 0 {
        0
    } else {
        ledgers(ranges.drop_last()) + (ranges.last().to_ledger - ranges.last().from_ledger + 1)
    }
}

proof fn lemma_total_split(m: Map<u64, u64>, from: int, mid: int, to: int)
    requires
        from <= mid <= to,
    ensures
        total(m, from, to) == total(m, from, mid) + total(m, mid, to),
    decreases to - mid,
{
    if mid < to {
        lemma_total_split(m, from, mid, to - 1);
    }
}

proof fn lemma_agreeing_totals(rpc: Map<u64, u64>, db: Map<u64, u64>, from: int, to: int)
    requires
        forall|l: int| from <= l < to ==> !#[trigger] disagrees(rpc, db, l),
    ensures
        total(rpc, from, to) == total(db, from, to),
    decreases to - from,
{
    if from < to {
        lemma_agreeing_totals(rpc, db, from, to - 1);
        assert(!disagrees(rpc, db, to - 1));
    }
}

proof fn lemma_runs_prefix(
    ranges: Seq<DiscrepantRange>,
    rpc: Map<u64, u64>,
    db: Map<u64, u64>,
    start: int,
    end: int,
)
    requires
        are_the_runs(ranges, rpc, db, start, end),
        ranges.len() > 0,
    ensures
        are_the_runs(ranges.drop_last(), rpc, db, start, ranges.last().from_ledger as int),
        forall|l: int|
            ranges.last().to_ledger < l < end ==> !#[trigger] disagrees(rpc, db, l),
{
    let last = ranges.last();
    let before = ranges.drop_last();
    let n = ranges.len() - 1;
    assert(is_run(ranges[n], rpc, db, start, end));
    assert forall|i: int| 0 <= i < before.len() implies is_run(
        #[trigger] before[i],
        rpc,
        db,
        start,
        last.from_ledger as int,
    ) by {
        assert(before[i] == ranges[i]);
        assert(is_run(ranges[i], rpc, db, start, end));
        assert(ranges[i].to_ledger + 1 < ranges[n].from_ledger);
    }
    assert forall|i: int, j: int| 0 <= i < j < before.len() implies (#[trigger] before[i]).to_ledger
        + 1 < (#[trigger] before[j]).from_ledger by {
        assert(before[i] == ranges[i] && before[j] == ranges[j]);
    }
    assert forall|l: int|
        start <= l < last.from_ledger && #[trigger] disagrees(rpc, db, l) implies in_ranges(
        before,
        l,
    ) by {
        assert(in_ranges(ranges, l));
        let i = choose|i: int|
            0 <= i < ranges.len() && (#[trigger] ranges[i]).from_ledger <= l
                <= ranges[i].to_ledger;
        assert(before[i] == ranges[i]);
    }
    assert forall|l: int| last.to_ledger < l < end implies !#[trigger] disagrees(rpc, db, l) by {
        if disagrees(rpc, db, l) {
            assert(in_ranges(ranges, l));
            let i = choose|i: int|
                0 <= i < ranges.len() && (#[trigger] ranges[i]).from_ledger <= l
                    <= ranges[i].to_ledger;
            if i < n {
                assert(ranges[i].to_ledger + 1 < ranges[n].from_ledger);
            }
        }
    }
}

/// The ranges account for the whole difference between the two sides: what the RPC has and the
/// database lacks, less what the database has and the RPC lacks, is the difference of the totals.
/// Neither sum exceeds the total of its side, and the ranges hold no more ledgers than the window.
pub proof fn ranges_explain_the_difference(
    ranges: Seq<DiscrepantRange>,
    rpc: Map<u64, u64>,
    db: Map<u64, u64>,
    start: int,
    end: int,
)
    requires
        start <= end,
        are_the_runs(ranges, rpc, db, start, end),
    ensures
        missing(ranges) - extra(ranges) == total(rpc, start, end) - total(db, start, end),
        missing(ranges) <= total(rpc, start, end),
        extra(ranges) <= total(db, start, end),
        0 <= ledgers(ranges) <= end - start,
    decreases ranges.len(),
{
    if ranges.len() == 0 {
        assert forall|l: int| start <= l < end implies !#[trigger] disagrees(rpc, db, l) by {
            if disagrees(rpc, db, l) {
                assert(in_ranges(ranges, l));
            }
        }
        lemma_agreeing_totals(rpc, db, start, end);
    } else {
        let r = ranges.last();
        assert(is_run(ranges[ranges.len() - 1], rpc, db, start, end));
        lemma_runs_prefix(ranges, rpc, db, start, end);
        ranges_explain_the_difference(ranges.drop_last(), rpc, db, start, r.from_ledger as int);
        lemma_total_split(rpc, start, r.from_ledger as int, end);
        lemma_total_split(db, start, r.from_ledger as int, end);
        lemma_total_split(rpc, r.from_ledger as int, r.to_ledger + 1, end);
        lemma_total_split(db, r.from_ledger as int, r.to_ledger + 1, end);
        lemma_agreeing_totals(rpc, db, r.to_ledger + 1, end);
    }
}

/// A clean report means agreement: there are no ranges exactly where the two sides agree about
/// every ledger of the window.
pub proof fn clean_means_agreement(
    ranges: Seq<DiscrepantRange>,
    rpc: Map<u64, u64>,
    db: Map<u64, u64>,
    start: int,
    end: int,
)
    requires
        are_the_runs(ranges, rpc, db, start, end),
    ensures
        ranges.len() == 0 <==> forall|l: int|
            start <= l < end ==> !#[trigger] disagrees(rpc, db, l),
{
    if ranges.len() == 0 {
        assert forall|l: int| start <= l < end implies !#[trigger] disagrees(rpc, db, l) by {
            if disagrees(rpc, db, l) {
                assert(in_ranges(ranges, l));
            }
        }
    } else {
        assert(is_run(ranges[0], rpc, db, start, end));
        assert(disagrees(rpc, db, ranges[0].from_ledger as int));
    }
}

/// The runs of a window are unique: two lists that are the runs of the same window are the same.
pub proof fn runs_are_unique(
    a: Seq<DiscrepantRange>,
    b: Seq<DiscrepantRange>,
    rpc: Map<u64, u64>,
    db: Map<u64, u64>,
    start: int,
    end: int,
)
    requires
        are_the_runs(a, rpc, db, start, end),
        are_the_runs(b, rpc, db, start, end),
    ensures
        a == b,
    decreases a.len() + b.len(),
{
    clean_means_agreement(a, rpc, db, start, end);
    clean_means_agreement(b, rpc, db, start, end);
    if a.len() > 0 {
        let x = a.last();
        let y = b.last();
        assert(is_run(a[a.len() - 1], rpc, db, start, end));
        assert(is_run(b[b.len() - 1], rpc, db, start, end));
        lemma_runs_prefix(a, rpc, db, start, end);
        lemma_runs_prefix(b, rpc, db, start, end);
        assert(disagrees(rpc, db, x.to_ledger as int));
        assert(disagrees(rpc, db, y.to_ledger as int));
        assert(x.to_ledger == y.to_ledger);
        lemma_run_start(a, b, rpc, db, start, end);
        lemma_run_start(b, a, rpc, db, start, end);
        assert(x.from_ledger == y.from_ledger);
        runs_are_unique(a.drop_last(), b.drop_last(), rpc, db, start, x.from_ledger as int);
        assert(a =~= a.drop_last().push(x));
        assert(b =~= b.drop_last().push(y));
    } else {
        assert(a =~= b);
    }
}

proof fn lemma_run_start(
    a: Seq<DiscrepantRange>,
    b: Seq<DiscrepantRange>,
    rpc: Map<u64, u64>,
    db: Map<u64, u64>,
    start: int,
    end: int,
)
    requires
        are_the_runs(a, rpc, db, start, end),
        are_the_runs(b, rpc, db, start, end),
        a.len() > 0,
        b.len() > 0,
        a.last().to_ledger == b.last().to_ledger,
    ensures
        a.last().from_ledger >= b.last().from_ledger,
{
    let x = a.last();
    let y = b.last();
    assert(is_run(a[a.len() - 1], rpc, db, start, end));
    assert(is_run(b[b.len() - 1], rpc, db, start, end));
    if x.from_ledger < y.from_ledger {
        let l = y.from_ledger - 1;
        assert(disagrees(rpc, db, l));
        assert(in_ranges(b, l));
        let i = choose|i: int|
            0 <= i < b.len() && (#[trigger] b[i]).from_ledger <= l <= b[i].to_ledger;
        if i < b.len() - 1 {
            assert(b[i].to_ledger + 1 < b[b.len() - 1].from_ledger);
        }
    }
}

impl ReconcileReport {
    /// Whether the report is the comparison of the two sides over its window.
    pub open spec fn compares(self, rpc: Map<u64, u64>, db: Map<u64, u64>) -> bool {
        &&& self.rpc_events == total(rpc, self.window_start as int, self.window_end + 1)
        &&& self.db_events == total(db, self.window_start as int, self.window_end + 1)
        &&& are_the_runs(
            self.discrepant_ranges@,
            rpc,
            db,
            self.window_start as int,
            self.window_end + 1,
        )
    }

    /// The events that the RPC has and the database lacks.
    pub fn missing_events(&self) -> (r: u64)
        requires
            missing(self.discrepant_ranges@) <= u64::MAX,
        ensures
            r == missing(self.discrepant_ranges@),
    {
        let ranges = &self.discrepant_ranges;
        let mut sum: u64 = 0;
        let mut i: usize = 0;
        proof {
            lemma_sums_grow(ranges@, 0);
            assert(ranges@.take(0) =~= Seq::<DiscrepantRange>::empty());
        }
        while i < ranges.len()
            invariant
                i <= ranges.len(),
                missing(ranges@) <= u64::MAX,
                sum == missing(ranges@.take(i as int)),
            decreases ranges.len() - i,
        {
            proof {
                lemma_sums_grow(ranges@, i + 1);
                assert(ranges@.take(i + 1).drop_last() =~= ranges@.take(i as int));
                assert(ranges@.take(i + 1).last() == ranges@[i as int]);
            }
            sum = sum + ranges[i].rpc_events.saturating_sub(ranges[i].db_events);
            i = i + 1;
        }
        assert(ranges@.take(i as int) =~= ranges@);
        sum
    }

    /// The events that the database has and the RPC lacks.
    pub fn extra_events(&self) -> (r: u64)
        requires
            extra(self.discrepant_ranges@) <= u64::MAX,
        ensures
            r == extra(self.discrepant_ranges@),
    {
        let ranges = &self.discrepant_ranges;
        let mut sum: u64 = 0;
        let mut i: usize = 0;
        proof {
            assert(ranges@.take(0) =~= Seq::<DiscrepantRange>::empty());
        }
        while i < ranges.len()
            invariant
                i <= ranges.len(),
                extra(ranges@) <= u64::MAX,
                sum == extra(ranges@.take(i as int)),
            decreases ranges.len() - i,
        {
            proof {
                lemma_sums_grow(ranges@, i + 1);
                assert(ranges@.take(i + 1).drop_last() =~= ranges@.take(i as int));
                assert(ranges@.take(i + 1).last() == ranges@[i as int]);
            }
            sum = sum + ranges[i].db_events.saturating_sub(ranges[i].rpc_events);
            i = i + 1;
        }
        assert(ranges@.take(i as int) =~= ranges@);
        sum
    }

    /// The number of ledgers that disagree.
    pub fn discrepant_ledgers(&self) -> (r: u64)
        requires
            forall|i: int|
                0 <= i < self.discrepant_ranges@.len() ==> (
                #[trigger] self.discrepant_ranges@[i]).from_ledger
                    <= self.discrepant_ranges@[i].to_ledger,
            ledgers(self.discrepant_ranges@) <= u64::MAX,
        ensures
            r == ledgers(self.discrepant_ranges@),
    {
        let ranges = &self.discrepant_ranges;
        let mut sum: u64 = 0;
        let mut i: usize = 0;
        proof {
            assert(ranges@.take(0) =~= Seq::<DiscrepantRange>::empty());
        }
        while i < ranges.len()
            invariant
                i <= ranges.len(),
                forall|k: int|
                    0 <= k < ranges@.len() ==> (#[trigger] ranges@[k]).from_ledger
                        <= ranges@[k].to_ledger,
                ledgers(ranges@) <= u64::MAX,
                sum == ledgers(ranges@.take(i as int)),
            decreases ranges.len() - i,
        {
            proof {
                lemma_ledgers_grow(ranges@, i + 1);
                assert(ranges@.take(i + 1).drop_last() =~= ranges@.take(i as int));
                assert(ranges@.take(i + 1).last() == ranges@[i as int]);
            }
            let span: u64 = ranges[i].to_ledger - ranges[i].from_ledger;
            sum = sum + span + 1;
            i = i + 1;
        }
        assert(ranges@.take(i as int) =~= ranges@);
        sum
    }

    /// Whether the ranges are in order and what they sum up to can be told.
    pub open spec fn sums_fit(self) -> bool {
        &&& missing(self.discrepant_ranges@) <= u64::MAX
        &&& extra(self.discrepant_ranges@) <= u64::MAX
        &&& forall|i: int|
            0 <= i < self.discrepant_ranges@.len() ==> (
            #[trigger] self.discrepant_ranges@[i]).from_ledger
                <= self.discrepant_ranges@[i].to_ledger
        &&& ledgers(self.discrepant_ranges@) <= u64::MAX
    }

    /// Whether the ranges are in order and what they sum up to can be told.
    pub fn adds_up(&self) -> (r: bool)
        ensures
            r == self.sums_fit(),
    {
        let ranges = &self.discrepant_ranges;
        let mut i: usize = 0;
        while i < ranges.len()
            invariant
                i <= ranges.len(),
                ranges@ == self.discrepant_ranges@,
                forall|k: int|
                    0 <= k < i ==> (#[trigger] ranges@[k]).from_ledger <= ranges@[k].to_ledger,
            decreases ranges.len() - i,
        {
            if ranges[i].from_ledger > ranges[i].to_ledger {
                assert(ranges@[i as int].from_ledger > ranges@[i as int].to_ledger);
                return false;
            }
            i = i + 1;
        }
        let limit: u128 = u64::MAX as u128;
        let mut lacking: u128 = 0;
        let mut surplus: u128 = 0;
        let mut span: u128 = 0;
        i = 0;
        assert(ranges@.take(0) =~= Seq::<DiscrepantRange>::empty());
        while i < ranges.len()
            invariant
                i <= ranges.len(),
                ranges@ == self.discrepant_ranges@,
                limit == u64::MAX,
                forall|k: int|
                    0 <= k < ranges@.len() ==> (#[trigger] ranges@[k]).from_ledger
                        <= ranges@[k].to_ledger,
                lacking == missing(ranges@.take(i as int)) && lacking <= limit,
                surplus == extra(ranges@.take(i as int)) && surplus <= limit,
                span == ledgers(ranges@.take(i as int)) && span <= limit,
            decreases ranges.len() - i,
        {
            proof {
                lemma_sums_grow(ranges@, i + 1);
                lemma_ledgers_grow(ranges@, i + 1);
                assert(ranges@.take(i + 1).drop_last() =~= ranges@.take(i as int));
                assert(ranges@.take(i + 1).last() == ranges@[i as int]);
            }
            let r = &ranges[i];
            lacking = lacking + r.rpc_events.saturating_sub(r.db_events) as u128;
            surplus = surplus + r.db_events.saturating_sub(r.rpc_events) as u128;
            span = span + (r.to_ledger - r.from_ledger) as u128 + 1;
            if lacking > limit || surplus > limit || span > limit {
                return false;
            }
            i = i + 1;
        }
        assert(ranges@.take(i as int) =~= ranges@);
        true
    }

    /// What there is to tell of the comparison.
    pub fn notice(&self) -> (r: ReportNotice)
        requires
            self.sums_fit(),
        ensures
            r.discrepant_ledgers == ledgers(self.discrepant_ranges@),
            r.missing_events == missing(self.discrepant_ranges@),
            r.extra_events == extra(self.discrepant_ranges@),
            r.clean == (self.discrepant_ranges@.len() == 0),
            r.clamped == self.truncated,
    {
        ReportNotice {
            discrepant_ledgers: self.discrepant_ledgers(),
            missing_events: self.missing_events(),
            extra_events: self.extra_events(),
            clean: self.discrepant_ranges.len() == 0,
            clamped: self.truncated,
        }
    }
}

proof fn lemma_sums_grow(ranges: Seq<DiscrepantRange>, k: int)
    requires
        0 <= k <= ranges.len(),
    ensures
        missing(ranges.take(k)) <= missing(ranges),
        extra(ranges.take(k)) <= extra(ranges),
    decreases ranges.len() - k,
{
    if k == ranges.len() {
        assert(ranges.take(k) =~= ranges);
    } else {
        lemma_sums_grow(ranges, k + 1);
        assert(ranges.take(k + 1).drop_last() =~= ranges.take(k));
    }
}

proof fn lemma_ledgers_grow(ranges: Seq<DiscrepantRange>, k: int)
    requires
        0 <= k <= ranges.len(),
        forall|i: int|
            0 <= i < ranges.len() ==> (#[trigger] ranges[i]).from_ledger <= ranges[i].to_ledger,
    ensures
        ledgers(ranges.take(k)) <= ledgers(ranges),
    decreases ranges.len() - k,
{
    if k == ranges.len() {
        assert(ranges.take(k) =~= ranges);
    } else {
        lemma_ledgers_grow(ranges, k + 1);
        assert(ranges.take(k + 1).drop_last() =~= ranges.take(k));
        assert(ranges.take(k + 1).last() == ranges[k]);
    }
}

proof fn lemma_total_grows(m: Map<u64, u64>, from: int, mid: int, to: int)
    requires
        from <= mid <= to,
    ensures
        total(m, from, mid) <= total(m, from, to),
        total(m, mid, to) <= total(m, from, to),
{
    lemma_total_split(m, from, mid, to);
}

/// The events counted at a ledger.
pub fn count_of(m: &HashMap<u64, u64>, ledger: u64) -> (r: u64)
    ensures
        r == count(m@, ledger as int),
{
    match m.get(&ledger) {
        Some(n) => *n,
        None => 0,
    }
}

/// What is known once the ledgers before `next` have been compared: the runs that are closed and
/// the run that is still open.
spec fn scanned(
    ranges: Seq<DiscrepantRange>,
    open: Option<DiscrepantRange>,
    rpc: Map<u64, u64>,
    db: Map<u64, u64>,
    start: int,
    next: int,
) -> bool {
    match open {
        None => are_the_runs(ranges, rpc, db, start, next) && (next > start ==> !disagrees(
            rpc,
            db,
            next - 1,
        )),
        Some(r) => {
            &&& is_run(r, rpc, db, start, next)
            &&& r.to_ledger == next - 1
            &&& are_the_runs(ranges, rpc, db, start, r.from_ledger as int)
            &&& r.from_ledger > start ==> !disagrees(rpc, db, r.from_ledger - 1)
        },
    }
}

proof fn lemma_extend_clean(
    ranges: Seq<DiscrepantRange>,
    rpc: Map<u64, u64>,
    db: Map<u64, u64>,
    start: int,
    next: int,
)
    requires
        are_the_runs(ranges, rpc, db, start, next),
        !disagrees(rpc, db, next),
    ensures
        are_the_runs(ranges, rpc, db, start, next + 1),
{
    assert forall|i: int| 0 <= i < ranges.len() implies is_run(
        #[trigger] ranges[i],
        rpc,
        db,
        start,
        next + 1,
    ) by {
        assert(is_run(ranges[i], rpc, db, start, next));
    }
    assert forall|l: int|
        start <= l < next + 1 && #[trigger] disagrees(rpc, db, l) implies in_ranges(ranges, l) by {
        assert(l != next);
    }
}

proof fn lemma_close(
    ranges: Seq<DiscrepantRange>,
    r: DiscrepantRange,
    rpc: Map<u64, u64>,
    db: Map<u64, u64>,
    start: int,
    next: int,
)
    requires
        is_run(r, rpc, db, start, next),
        r.to_ledger == next - 1,
        are_the_runs(ranges, rpc, db, start, r.from_ledger as int),
        r.from_ledger > start ==> !disagrees(rpc, db, r.from_ledger - 1),
    ensures
        are_the_runs(ranges.push(r), rpc, db, start, next),
{
    let all = ranges.push(r);
    assert forall|i: int| 0 <= i < all.len() implies is_run(
        #[trigger] all[i],
        rpc,
        db,
        start,
        next,
    ) by {
        if i < ranges.len() {
            assert(is_run(ranges[i], rpc, db, start, r.from_ledger as int));
        }
    }
    assert forall|i: int, j: int| 0 <= i < j < all.len() implies (#[trigger] all[i]).to_ledger + 1
        < (#[trigger] all[j]).from_ledger by {
        if j < ranges.len() {
            assert(ranges[i].to_ledger + 1 < ranges[j].from_ledger);
        } else {
            assert(is_run(ranges[i], rpc, db, start, r.from_ledger as int));
            assert(disagrees(rpc, db, ranges[i].to_ledger as int));
        }
    }
    assert forall|l: int| start <= l < next && #[trigger] disagrees(rpc, db, l) implies in_ranges(
        all,
        l,
    ) by {
        if l < r.from_ledger {
            assert(in_ranges(ranges, l));
            let i = choose|i: int|
                0 <= i < ranges.len() && (#[trigger] ranges[i]).from_ledger <= l
                    <= ranges[i].to_ledger;
            assert(all[i] == ranges[i]);
        } else {
            assert(all[ranges.len() as int] == r);
        }
    }
}

/// The events of all ledgers of a window, ends included, where they can be told in 64 bits.
pub fn total_of(m: &HashMap<u64, u64>, window_start: u64, window_end: u64) -> (r: Option<u64>)
    ensures
        match r {
            Some(n) => n == total(m@, window_start as int, window_end + 1),
            None => total(m@, window_start as int, window_end + 1) > u64::MAX,
        },
{
    let mut sum: u64 = 0;
    if window_start > window_end {
        return Some(0);
    }
    let mut ledger: u64 = window_start;
    loop
        invariant_except_break
            window_start <= ledger <= window_end,
            sum == total(m@, window_start as int, ledger as int),
        ensures
            sum == total(m@, window_start as int, window_end + 1),
        decreases window_end - ledger,
    {
        let n: u64 = count_of(m, ledger);
        proof {
            lemma_total_grows(m@, window_start as int, ledger + 1, window_end + 1);
        }
        if n > u64::MAX - sum {
            return None;
        }
        sum = sum + n;
        if ledger == window_end {
            break;
        }
        ledger = ledger + 1;
    }
    Some(sum)
}

/// Compares the counts of both sides over a window, ends included, and gathers the ledgers that
/// disagree into ranges. Counts outside the window are ignored.
pub fn build_report(
    window_start: u64,
    window_end: u64,
    rpc: &HashMap<u64, u64>,
    db: &HashMap<u64, u64>,
    truncated: bool,
) -> (r: ReconcileReport)
    requires
        total(rpc@, window_start as int, window_end + 1) <= u64::MAX,
        total(db@, window_start as int, window_end + 1) <= u64::MAX,
    ensures
        r.window_start == window_start,
        r.window_end == window_end,
        r.truncated == truncated,
        r.compares(rpc@, db@),
        missing(r.discrepant_ranges@) <= u64::MAX,
        extra(r.discrepant_ranges@) <= u64::MAX,
        window_end - window_start < u64::MAX ==> ledgers(r.discrepant_ranges@) <= u64::MAX,
{
    let mut ranges: Vec<DiscrepantRange> = Vec::new();
    let mut rpc_events: u64 = 0;
    let mut db_events: u64 = 0;
    if window_start <= window_end {
        let mut open: Option<DiscrepantRange> = None;
        let mut ledger: u64 = window_start;
        let ghost end = window_end + 1;
        loop
            invariant_except_break
                window_start <= ledger <= window_end,
                rpc_events == total(rpc@, window_start as int, ledger as int),
                db_events == total(db@, window_start as int, ledger as int),
                scanned(ranges@, open, rpc@, db@, window_start as int, ledger as int),
            invariant
                end == window_end + 1,
                window_start <= window_end,
                total(rpc@, window_start as int, end) <= u64::MAX,
                total(db@, window_start as int, end) <= u64::MAX,
            ensures
                rpc_events == total(rpc@, window_start as int, end),
                db_events == total(db@, window_start as int, end),
                scanned(ranges@, open, rpc@, db@, window_start as int, end),
            decreases window_end - ledger,
        {
            let rpc_count: u64 = count_of(rpc, ledger);
            let db_count: u64 = count_of(db, ledger);
            let ghost next = ledger as int;
            proof {
                lemma_total_grows(rpc@, window_start as int, next + 1, end);
                lemma_total_grows(db@, window_start as int, next + 1, end);
            }
            rpc_events = rpc_events + rpc_count;
            db_events = db_events + db_count;
            if rpc_count == db_count {
                if let Some(range) = open {
                    proof {
                        lemma_close(ranges@, range, rpc@, db@, window_start as int, next);
                    }
                    ranges.push(range);
                }
                open = None;
                proof {
                    lemma_extend_clean(ranges@, rpc@, db@, window_start as int, next);
                }
            } else {
                assert(disagrees(rpc@, db@, next));
                match open {
                    Some(range) => {
                        proof {
                            lemma_total_grows(
                                rpc@,
                                window_start as int,
                                range.from_ledger as int,
                                next + 1,
                            );
                            lemma_total_grows(
                                db@,
                                window_start as int,
                                range.from_ledger as int,
                                next + 1,
                            );
                        }
                        open = Some(
                            DiscrepantRange {
                                from_ledger: range.from_ledger,
                                to_ledger: ledger,
                                rpc_events: range.rpc_events + rpc_count,
                                db_events: range.db_events + db_count,
                            },
                        );
                    },
                    None => {
                        open = Some(
                            DiscrepantRange {
                                from_ledger: ledger,
                                to_ledger: ledger,
                                rpc_events: rpc_count,
                                db_events: db_count,
                            },
                        );
                        assert(total(rpc@, next, next) == 0 && total(db@, next, next) == 0);
                    },
                }
            }
            if ledger == window_end {
                break;
            }
            ledger = ledger + 1;
        }
        if let Some(range) = open {
            proof {
                lemma_close(ranges@, range, rpc@, db@, window_start as int, end);
            }
            ranges.push(range);
        }
        proof {
            ranges_explain_the_difference(ranges@, rpc@, db@, window_start as int, end);
        }
    }
    ReconcileReport {
        window_start,
        window_end,
        rpc_events,
        db_events,
        discrepant_ranges: ranges,
        truncated,
    }
}

/// Counts per ledger, as numbers of any size.
pub open spec fn tallied(m: Map<u64, u64>, rows: Seq<(i64, i64)>, ledger: int) -> nat
    decreases rows.len(),
{
    if rows.len() == 0 {
        count(m, ledger)
    } else {
        tallied(m, rows.drop_last(), ledger) + if wrapped_u64(rows.last().0) == ledger {
            wrapped_u64(rows.last().1) as nat
        } else {
            0
        }
    }
}

proof fn lemma_tally_grows(m: Map<u64, u64>, rows: Seq<(i64, i64)>, k: int, ledger: int)
    requires
        0 <= k <= rows.len(),
    ensures
        tallied(m, rows.take(k), ledger) <= tallied(m, rows, ledger),
    decreases rows.len() - k,
{
    if k == rows.len() {
        assert(rows.take(k) =~= rows);
    } else {
        lemma_tally_grows(m, rows, k + 1, ledger);
        assert(rows.take(k + 1).drop_last() =~= rows.take(k));
    }
}

/// Adds rows of ledger and count to the counts per ledger.
pub fn tally(counts: &mut HashMap<u64, u64>, rows: &[(i64, i64)])
    requires
        forall|l: int| #[trigger] tallied(old(counts)@, rows@, l) <= u64::MAX,
    ensures
        forall|l: int| #[trigger] count(final(counts)@, l) == tallied(old(counts)@, rows@, l),
{
    let ghost before = counts@;
    let mut i: usize = 0;
    assert(rows@.take(0) =~= Seq::<(i64, i64)>::empty());
    while i < rows.len()
        invariant
            i <= rows.len(),
            forall|l: int| #[trigger] tallied(before, rows@, l) <= u64::MAX,
            forall|l: int| #[trigger] count(counts@, l) == tallied(before, rows@.take(i as int), l),
        decreases rows.len() - i,
    {
        let ledger: u64 = wrap_u64(rows[i].0);
        let n: u64 = wrap_u64(rows[i].1);
        let ghost earlier = counts@;
        proof {
            assert(rows@.take(i + 1).drop_last() =~= rows@.take(i as int));
            assert(rows@.take(i + 1).last() == rows@[i as int]);
            lemma_tally_grows(before, rows@, i + 1, ledger as int);
            assert(tallied(before, rows@, ledger as int) <= u64::MAX);
            assert(count(counts@, ledger as int) == tallied(
                before,
                rows@.take(i as int),
                ledger as int,
            ));
        }
        let so_far: u64 = count_of(counts, ledger);
        counts.insert(ledger, so_far + n);
        assert forall|l: int| #[trigger] count(counts@, l) == tallied(
            before,
            rows@.take(i + 1),
            l,
        ) by {
            assert(count(earlier, l) == tallied(before, rows@.take(i as int), l));
        }
        i = i + 1;
    }
    assert(rows@.take(i as int) =~= rows@);
}

/// The sums over ranges add up range by range: a range counts as missing or as extra by which side
/// has more, never as both, and with each of its ledgers.
pub proof fn sums_add_up_by_range(
    a: Seq<DiscrepantRange>,
    b: Seq<DiscrepantRange>,
    r: DiscrepantRange,
)
    ensures
        missing(a + b) == missing(a) + missing(b),
        extra(a + b) == extra(a) + extra(b),
        ledgers(a + b) == ledgers(a) + ledgers(b),
        r.rpc_events >= r.db_events ==> r.db_events + missing(seq![r]) == r.rpc_events && extra(
            seq![r],
        ) == 0,
        r.db_events >= r.rpc_events ==> r.rpc_events + extra(seq![r]) == r.db_events && missing(
            seq![r],
        ) == 0,
        ledgers(seq![r]) == r.to_ledger - r.from_ledger + 1,
    decreases b.len(),
{
    assert(seq![r].drop_last() =~= Seq::<DiscrepantRange>::empty());
    assert(seq![r].last() == r);
    assert(missing(Seq::<DiscrepantRange>::empty()) == 0);
    assert(extra(Seq::<DiscrepantRange>::empty()) == 0);
    assert(ledgers(Seq::<DiscrepantRange>::empty()) == 0);
    if b.len() == 0 {
        assert(a + b =~= a);
    } else {
        sums_add_up_by_range(a, b.drop_last(), r);
        assert((a + b).drop_last() =~= a + b.drop_last());
        assert((a + b).last() == b.last());
    }
}

/// The total of a window is that of its parts, and that of one ledger is its count: what the map
/// holds for it, or nothing.
pub proof fn totals_add_up_by_ledger(m: Map<u64, u64>, from: int, mid: int, to: int, ledger: u64)
    requires
        from <= mid <= to,
    ensures
        total(m, from, to) == total(m, from, mid) + total(m, mid, to),
        total(m, ledger as int, ledger + 1) == count(m, ledger as int),
        m.dom().contains(ledger) ==> count(m, ledger as int) == m[ledger],
        !m.dom().contains(ledger) ==> count(m, ledger as int) == 0,
{
    lemma_total_split(m, from, mid, to);
    reveal_with_fuel(total, 2);
}

/// The rows of the database add to the counts of their own ledgers alone, each by its number.
pub proof fn rows_add_to_their_ledger(
    m: Map<u64, u64>,
    rows: Seq<(i64, i64)>,
    ledger: i64,
    events: i64,
    other: int,
)
    requires
        0 <= ledger,
        0 <= events,
        other != ledger,
    ensures
        tallied(m, Seq::empty(), other) == count(m, other),
        tallied(m, rows.push((ledger, events)), ledger as int) == tallied(m, rows, ledger as int)
            + events,
        tallied(m, rows.push((ledger, events)), other) == tallied(m, rows, other),
{
    assert(rows.push((ledger, events)).drop_last() =~= rows);
}

/// A ledger that is reported lies in a range, and both sides do disagree about it; one on which they
/// agree lies in none.
pub proof fn reported_ledgers_disagree(
    ranges: Seq<DiscrepantRange>,
    rpc: Map<u64, u64>,
    db: Map<u64, u64>,
    start: int,
    end: int,
    ledger: int,
)
    requires
        are_the_runs(ranges, rpc, db, start, end),
    ensures
        in_ranges(ranges, ledger) <==> start <= ledger < end && count(rpc, ledger) != count(
            db,
            ledger,
        ),
{
    if in_ranges(ranges, ledger) {
        let i = choose|i: int|
            0 <= i < ranges.len() && (#[trigger] ranges[i]).from_ledger <= ledger
                <= ranges[i].to_ledger;
        assert(is_run(ranges[i], rpc, db, start, end));
        assert(disagrees(rpc, db, ledger));
    }
    if start <= ledger < end && count(rpc, ledger) != count(db, ledger) {
        assert(disagrees(rpc, db, ledger));
    }
}

/// A report is about the window it was asked for, its ends included: it has the events of each side
/// in it, and its ranges hold just the ledgers on which the sides differ.
pub proof fn reports_cover_their_window(
    start: u64,
    end: u64,
    rpc: &HashMap<u64, u64>,
    db: &HashMap<u64, u64>,
    truncated: bool,
    r: ReconcileReport,
    ledger: int,
)
    requires
        call_ensures(build_report, (start, end, rpc, db, truncated), r),
    ensures
        r.window_start == start,
        r.window_end == end,
        r.truncated == truncated,
        r.rpc_events == total(rpc@, start as int, end + 1),
        r.db_events == total(db@, start as int, end + 1),
        in_ranges(r.discrepant_ranges@, ledger) <==> start <= ledger <= end && count(rpc@, ledger)
            != count(db@, ledger),
{
    reported_ledgers_disagree(
        r.discrepant_ranges@,
        rpc@,
        db@,
        start as int,
        end + 1,
        ledger,
    );
}

/// The notice of a report tells of missing events what the RPC has more and of extra events what
/// the database has more, and is clean just where there is no range.
pub proof fn notices_tell_missing_from_extra(report: ReconcileReport, r: ReportNotice)
    requires
        call_ensures(ReconcileReport::notice, (&report,), r),
        report.sums_fit(),
    ensures
        r.missing_events == missing(report.discrepant_ranges@),
        r.extra_events == extra(report.discrepant_ranges@),
        r.discrepant_ledgers == ledgers(report.discrepant_ranges@),
        r.clean <==> report.discrepant_ranges@.len() == 0,
        r.clamped <==> report.truncated,
{
}

} // verus!
