//! The partitions of the events table. A ledger that no named partition covers would fall into the
//! catch-all one, unnoticed; the guard here stops the indexer first.
use vstd::prelude::*;

use crate::errors::ErrorSource;
use crate::errors::TridentError;
use crate::text::dec_int;
use crate::text::dec_int_text;

verus! {

broadcast use vstd::string::group_string_axioms;

/// The ledgers that a partition holds.
pub const PARTITION_SPAN: i64 = 2_000_000;

/// Whether a partition covers a ledger: its lower bound belongs to it, its upper bound does not.
pub open spec fn covered(ranges: Seq<(i64, i64)>, seq: i64) -> bool {
    exists|i: int| 0 <= i < ranges.len() && (#[trigger] ranges[i]).0 <= seq < ranges[i].1
}

/// The first ledger of a batch, from position `i` on, that no partition covers.
pub open spec fn first_uncovered(batch: Seq<i64>, ranges: Seq<(i64, i64)>, i: int) -> Option<i64>
    decreases batch.len() - i,
{
    if i >= batch.len() {
        None
    } else if !covered(ranges, batch[i]) {
        Some(batch[i])
    } else {
        first_uncovered(batch, ranges, i + 1)
    }
}

/// The highest upper bound of the partitions, or zero where there are none.
pub open spec fn highest_bound(ranges: Seq<(i64, i64)>) -> i64
    decreases ranges.len(),
{
    if ranges.len() == 0 {
        0
    } else if ranges.len() == 1 {
        ranges[0].1
    } else {
        let rest = highest_bound(ranges.drop_last());
        if ranges.last().1 >= rest {
            ranges.last().1
        } else {
            rest
        }
    }
}

/// The lower bound of the partition that would cover a ledger: the multiple of the span at or
/// below it, or above it where it is negative.
pub open spec fn suggested_bound(seq: i64) -> int {
    if seq >= 0 {
        seq - seq as int % 2_000_000
    } else {
        seq + (-(seq as int)) % 2_000_000
    }
}

/// What is said of a ledger that no partition covers.
pub open spec fn exhaustion_text(seq: i64, highest: i64) -> Seq<char> {
    "partition exhaustion: ledger_sequence "@ + dec_int(seq as int)
        + " is not covered by any named              soroban_events partition (highest known upper bound "@
        + dec_int(highest as int)
        + ").              Events for this ledger would land in soroban_events_default.              Run `SELECT create_soroban_partition("@
        + dec_int(suggested_bound(seq)) + ", "@ + dec_int(suggested_bound(seq) + 2_000_000)
        + ");` to create the              covering partition before resuming the indexer (issue #525)."@
}

fn is_covered(ranges: &[(i64, i64)], seq: i64) -> (r: bool)
    ensures
        r == covered(ranges@, seq),
{
    let mut i: usize = 0;
    while i < ranges.len()
        invariant
            i <= ranges.len(),
            forall|k: int| 0 <= k < i ==> !((#[trigger] ranges@[k]).0 <= seq < ranges@[k].1),
        decreases ranges.len() - i,
    {
        let (lo, hi) = ranges[i];
        if seq >= lo && seq < hi {
            assert(ranges@[i as int].0 <= seq < ranges@[i as int].1);
            return true;
        }
        i = i + 1;
    }
    false
}

fn highest(ranges: &[(i64, i64)]) -> (r: i64)
    ensures
        r == highest_bound(ranges@),
{
    if ranges.len() == 0 {
        return 0;
    }
    let mut best: i64 = ranges[0].1;
    let mut i: usize = 1;
    assert(ranges@.take(1).len() == 1);
    while i < ranges.len()
        invariant
            1 <= i <= ranges.len(),
            best == highest_bound(ranges@.take(i as int)),
        decreases ranges.len() - i,
    {
        assert(ranges@.take(i + 1).drop_last() =~= ranges@.take(i as int));
        assert(ranges@.take(i + 1).last() == ranges@[i as int]);
        if ranges[i].1 >= best {
            best = ranges[i].1;
        }
        i = i + 1;
    }
    assert(ranges@.take(i as int) =~= ranges@);
    best
}

/// Fails where a ledger of the batch is covered by no partition. The indexer halts on that error.
pub fn assert_no_default_partition_overflow(batch: &[i64], ranges: &[(i64, i64)]) -> (r: Result<
    (),
    TridentError,
>)
    ensures
        match r {
            Ok(_) => first_uncovered(batch@, ranges@, 0) is None,
            Err(e) => first_uncovered(batch@, ranges@, 0) is Some && e is ConfigError
                && e.cause().text() == exhaustion_text(
                first_uncovered(batch@, ranges@, 0)->0,
                highest_bound(ranges@),
            ),
        },
{
    let mut i: usize = 0;
    while i < batch.len()
        invariant
            i <= batch.len(),
            first_uncovered(batch@, ranges@, 0) == first_uncovered(batch@, ranges@, i as int),
        decreases batch.len() - i,
    {
        let seq: i64 = batch[i];
        if !is_covered(ranges, seq) {
            let wide: i128 = seq as i128;
            let bound: i128 = if wide >= 0 {
                wide - wide % 2_000_000
            } else {
                wide + (-wide) % 2_000_000
            };
            let mut message = "partition exhaustion: ledger_sequence ".to_owned();
            message.append(dec_int_text(wide).as_str());
            message.append(
                " is not covered by any named              soroban_events partition (highest known upper bound ",
            );
            message.append(dec_int_text(highest(ranges) as i128).as_str());
            message.append(
                ").              Events for this ledger would land in soroban_events_default.              Run `SELECT create_soroban_partition(",
            );
            message.append(dec_int_text(bound).as_str());
            message.append(", ");
            message.append(dec_int_text(bound + 2_000_000).as_str());
            message.append(
                ");` to create the              covering partition before resuming the indexer (issue #525).",
            );
            return Err(TridentError::config(ErrorSource::msg(message)));
        }
        i = i + 1;
    }
    Ok(())
}

/// A batch passes only where each of its ledgers is in a named partition: a gap between partitions
/// is no better than the end of the last one.
pub proof fn passing_batches_are_covered(batch: Seq<i64>, ranges: Seq<(i64, i64)>, i: int)
    requires
        0 <= i <= batch.len(),
    ensures
        first_uncovered(batch, ranges, i) is None <==> forall|k: int|
            i <= k < batch.len() ==> covered(ranges, #[trigger] batch[k]),
        first_uncovered(batch, ranges, i) is Some ==> !covered(
            ranges,
            first_uncovered(batch, ranges, i)->0,
        ) && batch.contains(first_uncovered(batch, ranges, i)->0),
    decreases batch.len() - i,
{
    if i < batch.len() {
        passing_batches_are_covered(batch, ranges, i + 1);
    }
}

/// The partition that the message proposes covers the ledger that it complains of.
pub proof fn proposed_partitions_cover(seq: i64)
    requires
        seq >= 0,
    ensures
        suggested_bound(seq) <= seq < suggested_bound(seq) + PARTITION_SPAN,
        suggested_bound(seq) % 2_000_000 == 0,
{
}

/// The bound that the message names is that of some partition, and no partition reaches further.
pub proof fn the_highest_bound_is_reached(ranges: Seq<(i64, i64)>)
    ensures
        ranges.len() == 0 ==> highest_bound(ranges) == 0,
        ranges.len() > 0 ==> exists|i: int|
            0 <= i < ranges.len() && (#[trigger] ranges[i]).1 == highest_bound(ranges),
        forall|i: int| 0 <= i < ranges.len() ==> (#[trigger] ranges[i]).1 <= highest_bound(ranges),
    decreases ranges.len(),
{
    if ranges.len() == 1 {
        assert(ranges[0].1 == highest_bound(ranges));
    } else if ranges.len() > 1 {
        let rest = ranges.drop_last();
        let n = ranges.len() - 1;
        the_highest_bound_is_reached(rest);
        let j = choose|j: int| 0 <= j < rest.len() && (#[trigger] rest[j]).1 == highest_bound(rest);
        assert(rest[j] == ranges[j]);
        assert(ranges[n] == ranges.last());
        assert(ranges[n].1 == highest_bound(ranges) || ranges[j].1 == highest_bound(ranges));
        assert forall|i: int| 0 <= i < ranges.len() implies (#[trigger] ranges[i]).1
            <= highest_bound(ranges) by {
            if i < n {
                assert(rest[i] == ranges[i]);
            }
        }
    }
}

/// A partition covers its lower bound and what follows, up to its upper bound and not with it.
pub proof fn partitions_cover_from_bound_to_bound(lower: i64, upper: i64, seq: i64)
    ensures
        covered(seq![(lower, upper)], seq) <==> lower <= seq < upper,
        !covered(Seq::empty(), seq),
{
    let ranges = seq![(lower, upper)];
    assert(ranges[0] == (lower, upper));
}

/// The ledger that is complained of is the first one of the batch that is not covered.
pub proof fn the_first_uncovered_ledger_is_named(
    batch: Seq<i64>,
    ranges: Seq<(i64, i64)>,
    from: int,
    at: int,
)
    requires
        0 <= from <= at < batch.len(),
        !covered(ranges, batch[at]),
        forall|k: int| from <= k < at ==> covered(ranges, #[trigger] batch[k]),
    ensures
        first_uncovered(batch, ranges, from) == Some(batch[at]),
    decreases at - from,
{
    if from < at {
        assert(covered(ranges, batch[from]));
        the_first_uncovered_ledger_is_named(batch, ranges, from + 1, at);
    }
}

/// What is said of a ledger that no partition covers names the ledger, how far the partitions
/// reach, and the bounds of the partition to make.
pub proof fn exhaustion_names_ledger_and_remedy(seq: i64, highest: i64)
    requires
        seq >= 0,
    ensures
        exhaustion_text(seq, highest) == "partition exhaustion: ledger_sequence "@ + dec_int(
            seq as int,
        )
            + " is not covered by any named              soroban_events partition (highest known upper bound "@
            + dec_int(highest as int)
            + ").              Events for this ledger would land in soroban_events_default.              Run `SELECT create_soroban_partition("@
            + dec_int(2_000_000 * (seq as int / 2_000_000)) + ", "@ + dec_int(
            2_000_000 * (seq as int / 2_000_000) + 2_000_000,
        )
            + ");` to create the              covering partition before resuming the indexer (issue #525)."@,
{
    assert(suggested_bound(seq) == 2_000_000 * (seq as int / 2_000_000));
}

/// Of a ledger below zero the bound that is proposed is the multiple of the span at or above it.
pub proof fn bounds_below_zero_are_rounded_up(seq: i64)
    requires
        seq < 0,
    ensures
        seq <= suggested_bound(seq) < seq + 2_000_000,
        suggested_bound(seq) % 2_000_000 == 0,
{
}

} // verus!
