//! Positions of events within their transactions, made unique across a batch.
//!
//! Ledger, transaction and position together identify an event in storage. One operation can emit
//! several events, so two events of a batch can arrive with the same position.
use vstd::prelude::*;

use crate::types::EventView;
use crate::types::SorobanEvent;

verus! {

broadcast use vstd::string::group_string_axioms;

/// What the events of a batch are.
pub open spec fn event_views(events: Seq<SorobanEvent>) -> Seq<EventView> {
    Seq::new(events.len(), |i: int| events[i]@)
}

/// Whether an event belongs to a transaction.
pub open spec fn in_transaction(e: EventView, ledger: u64, tx: Seq<char>) -> bool {
    e.ledger_sequence == ledger && e.transaction_hash == tx
}

/// Whether one of the events that have their position already holds position `k` of a
/// transaction.
pub open spec fn is_taken(
    events: Seq<EventView>,
    indexes: Seq<u32>,
    ledger: u64,
    tx: Seq<char>,
    k: int,
) -> bool {
    exists|j: int|
        0 <= j < indexes.len() && #[trigger] indexes[j] == k && in_transaction(
            events[j],
            ledger,
            tx,
        )
}

/// The first position from `from` on that no event of the transaction holds yet.
pub open spec fn next_free(
    events: Seq<EventView>,
    indexes: Seq<u32>,
    ledger: u64,
    tx: Seq<char>,
    from: int,
) -> Option<u32>
    decreases u32::MAX + 1 - from,
{
    if from > u32::MAX || from < 0 {
        None
    } else if is_taken(events, indexes, ledger, tx, from) {
        next_free(events, indexes, ledger, tx, from + 1)
    } else {
        Some(from as u32)
    }
}

/// The first position that no event of the transaction holds yet, from `from` on and then from the
/// lowest on.
pub open spec fn free_from(
    events: Seq<EventView>,
    indexes: Seq<u32>,
    ledger: u64,
    tx: Seq<char>,
    from: u32,
) -> Option<u32> {
    match next_free(events, indexes, ledger, tx, from as int) {
        Some(k) => Some(k),
        None => next_free(events, indexes, ledger, tx, 0),
    }
}

/// The positions of the events of a batch: each event, in order, gets the first free position
/// from its own on, or the first there is where none is free up there. There is none where an
/// event finds no free position.
pub open spec fn assigned(events: Seq<EventView>) -> Option<Seq<u32>>
    decreases events.len(),
{
    if events.len() == 0 {
        Some(Seq::empty())
    } else {
        let e = events.last();
        match assigned(events.drop_last()) {
            None => None,
            Some(before) => match free_from(
                events,
                before,
                e.ledger_sequence,
                e.transaction_hash,
                e.event_index,
            ) {
                None => None,
                Some(k) => Some(before.push(k)),
            },
        }
    }
}

/// `next_free` gives a position that is free, is not below the one asked for, and leaves no free
/// position in between.
pub proof fn next_free_is_the_first_free_position(
    events: Seq<EventView>,
    indexes: Seq<u32>,
    ledger: u64,
    tx: Seq<char>,
    from: int,
)
    requires
        0 <= from,
        next_free(events, indexes, ledger, tx, from) is Some,
    ensures
        ({
            let k = next_free(events, indexes, ledger, tx, from)->0;
            &&& from <= k
            &&& !is_taken(events, indexes, ledger, tx, k as int)
            &&& forall|m: int| from <= m < k ==> is_taken(events, indexes, ledger, tx, m)
        }),
    decreases u32::MAX + 1 - from,
{
    if is_taken(events, indexes, ledger, tx, from) {
        next_free_is_the_first_free_position(events, indexes, ledger, tx, from + 1);
    }
}

proof fn lemma_none_free(
    events: Seq<EventView>,
    indexes: Seq<u32>,
    ledger: u64,
    tx: Seq<char>,
    from: int,
)
    requires
        0 <= from,
        next_free(events, indexes, ledger, tx, from) is None,
    ensures
        forall|m: int| from <= m <= u32::MAX ==> is_taken(events, indexes, ledger, tx, m),
    decreases u32::MAX + 1 - from,
{
    if from <= u32::MAX {
        lemma_none_free(events, indexes, ledger, tx, from + 1);
    }
}

proof fn lemma_some_free(events: Seq<EventView>, indexes: Seq<u32>, ledger: u64, tx: Seq<char>)
    requires
        indexes.len() < 0x1_0000_0000,
    ensures
        next_free(events, indexes, ledger, tx, 0) is Some,
{
    if next_free(events, indexes, ledger, tx, 0) is None {
        lemma_none_free(events, indexes, ledger, tx, 0);
        let held = indexes.map_values(|k: u32| k as int);
        let all = vstd::set_lib::set_int_range(0, 0x1_0000_0000);
        assert forall|m: int| all.contains(m) implies held.to_set().contains(m) by {
            assert(is_taken(events, indexes, ledger, tx, m));
            let j = choose|j: int|
                0 <= j < indexes.len() && #[trigger] indexes[j] == m && in_transaction(
                    events[j],
                    ledger,
                    tx,
                );
            assert(held[j] == m);
            assert(held.contains(m));
        }
        assert(all.subset_of(held.to_set()));
        vstd::seq_lib::seq_to_set_is_finite(held);
        vstd::set_lib::lemma_len_subset(all, held.to_set());
        held.lemma_cardinality_of_set();
        vstd::set_lib::lemma_int_range(0, 0x1_0000_0000);
    }
}

/// Every batch of no more events than there are positions finds one for each.
pub proof fn every_event_finds_a_position(events: Seq<EventView>)
    requires
        events.len() <= 0x1_0000_0000,
    ensures
        assigned(events) is Some,
        assigned(events)->0.len() == events.len(),
    decreases events.len(),
{
    if events.len() > 0 {
        let e = events.last();
        every_event_finds_a_position(events.drop_last());
        lemma_some_free(
            events,
            assigned(events.drop_last())->0,
            e.ledger_sequence,
            e.transaction_hash,
        );
    }
}

proof fn lemma_free_from(
    events: Seq<EventView>,
    indexes: Seq<u32>,
    ledger: u64,
    tx: Seq<char>,
    from: u32,
)
    requires
        free_from(events, indexes, ledger, tx, from) is Some,
    ensures
        !is_taken(
            events,
            indexes,
            ledger,
            tx,
            free_from(events, indexes, ledger, tx, from)->0 as int,
        ),
{
    if next_free(events, indexes, ledger, tx, from as int) is Some {
        next_free_is_the_first_free_position(events, indexes, ledger, tx, from as int);
    } else {
        next_free_is_the_first_free_position(events, indexes, ledger, tx, 0);
    }
}

/// After the assignment no two events share ledger, transaction and position.
pub proof fn assigned_positions_are_unique(events: Seq<EventView>)
    requires
        assigned(events) is Some,
    ensures
        assigned(events)->0.len() == events.len(),
        forall|i: int, j: int|
            0 <= i < j < events.len() && in_transaction(
                events[i],
                events[j].ledger_sequence,
                events[j].transaction_hash,
            ) ==> #[trigger] assigned(events)->0[i] != #[trigger] assigned(events)->0[j],
    decreases events.len(),
{
    if events.len() > 0 {
        let e = events.last();
        let rest = events.drop_last();
        let before = assigned(rest)->0;
        assigned_positions_are_unique(rest);
        lemma_free_from(events, before, e.ledger_sequence, e.transaction_hash, e.event_index);
        let all = assigned(events)->0;
        let n = events.len() - 1;
        assert forall|i: int, j: int|
            0 <= i < j < events.len() && in_transaction(
                events[i],
                events[j].ledger_sequence,
                events[j].transaction_hash,
            ) implies #[trigger] all[i] != #[trigger] all[j] by {
            assert(all[i] == before[i]);
            if j < n {
                assert(all[j] == before[j]);
                assert(events[i] == rest[i] && events[j] == rest[j]);
            } else {
                if all[i] == all[j] {
                    assert(before[i] == all[j] as int);
                    assert(is_taken(
                        events,
                        before,
                        e.ledger_sequence,
                        e.transaction_hash,
                        all[j] as int,
                    ));
                }
            }
        }
    }
}

/// The last event of a batch moves to a lower position only where every position from its own on
/// is held in its transaction.
pub proof fn events_move_up_while_they_can(events: Seq<EventView>)
    requires
        events.len() > 0,
        assigned(events) is Some,
        assigned(events)->0.last() < events.last().event_index,
    ensures
        forall|m: int|
            events.last().event_index <= m <= u32::MAX ==> is_taken(
                events,
                assigned(events.drop_last())->0,
                events.last().ledger_sequence,
                events.last().transaction_hash,
                m,
            ),
{
    let e = events.last();
    let before = assigned(events.drop_last())->0;
    assert(assigned(events)->0.last() == free_from(
        events,
        before,
        e.ledger_sequence,
        e.transaction_hash,
        e.event_index,
    )->0);
    if next_free(events, before, e.ledger_sequence, e.transaction_hash, e.event_index as int)
        is Some {
        next_free_is_the_first_free_position(
            events,
            before,
            e.ledger_sequence,
            e.transaction_hash,
            e.event_index as int,
        );
    } else {
        lemma_none_free(
            events,
            before,
            e.ledger_sequence,
            e.transaction_hash,
            e.event_index as int,
        );
    }
}

/// A batch whose events already have different positions is left as it is.
pub proof fn distinct_positions_are_kept(events: Seq<EventView>)
    requires
        forall|i: int, j: int|
            0 <= i < j < events.len() && in_transaction(
                #[trigger] events[i],
                (#[trigger] events[j]).ledger_sequence,
                events[j].transaction_hash,
            ) ==> events[i].event_index != events[j].event_index,
    ensures
        assigned(events) is Some,
        assigned(events)->0 == Seq::new(events.len(), |i: int| events[i].event_index),
    decreases events.len(),
{
    if events.len() > 0 {
        let rest = events.drop_last();
        assert forall|i: int, j: int|
            0 <= i < j < rest.len() && in_transaction(
                #[trigger] rest[i],
                (#[trigger] rest[j]).ledger_sequence,
                rest[j].transaction_hash,
            ) implies rest[i].event_index != rest[j].event_index by {
            assert(rest[i] == events[i] && rest[j] == events[j]);
        }
        distinct_positions_are_kept(rest);
        let before = assigned(rest)->0;
        let e = events.last();
        let n = events.len() - 1;
        assert(!is_taken(
            events,
            before,
            e.ledger_sequence,
            e.transaction_hash,
            e.event_index as int,
        )) by {
            if is_taken(
                events,
                before,
                e.ledger_sequence,
                e.transaction_hash,
                e.event_index as int,
            ) {
                let j = choose|j: int|
                    0 <= j < before.len() && #[trigger] before[j] == e.event_index as int
                        && in_transaction(events[j], e.ledger_sequence, e.transaction_hash);
                assert(rest[j] == events[j]);
                assert(in_transaction(
                    events[j],
                    events[n].ledger_sequence,
                    events[n].transaction_hash,
                ));
            }
        }
        assert(assigned(events)->0 =~= Seq::new(events.len(), |i: int| events[i].event_index));
    }
}

/// Whether one of the first `n` events holds position `k` of the transaction of event `n`.
fn taken(events: &Vec<SorobanEvent>, n: usize, k: u32, Ghost(indexes): Ghost<Seq<u32>>) -> (r: bool)
    requires
        n < events.len(),
        indexes.len() == n,
        forall|j: int| 0 <= j < n ==> (#[trigger] events@[j]).event_index == indexes[j],
    ensures
        r == is_taken(
            event_views(events@),
            indexes,
            events@[n as int].ledger_sequence,
            events@[n as int].transaction_hash@,
            k as int,
        ),
{
    let ledger: u64 = events[n].ledger_sequence;
    let mut j: usize = 0;
    let ghost all = event_views(events@);
    while j < n
        invariant
            j <= n < events.len(),
            indexes.len() == n,
            ledger == events@[n as int].ledger_sequence,
            all == event_views(events@),
            forall|m: int| 0 <= m < n ==> (#[trigger] events@[m]).event_index == indexes[m],
            forall|m: int|
                0 <= m < j ==> !(#[trigger] indexes[m] == k && in_transaction(
                    all[m],
                    ledger,
                    events@[n as int].transaction_hash@,
                )),
        decreases n - j,
    {
        if events[j].event_index == k && events[j].ledger_sequence == ledger
            && events[j].transaction_hash == events[n].transaction_hash {
            assert(events@[j as int].event_index == indexes[j as int]);
            assert(indexes[j as int] == k && in_transaction(
                all[j as int],
                ledger,
                events@[n as int].transaction_hash@,
            ));
            return true;
        }
        assert(events@[j as int].event_index == indexes[j as int]);
        j = j + 1;
    }
    false
}

/// The first free position of the transaction of event `n` from `from` on, beside the first `n`
/// events.
fn first_free(
    events: &Vec<SorobanEvent>,
    n: usize,
    from: u32,
    Ghost(indexes): Ghost<Seq<u32>>,
) -> (r: Option<u32>)
    requires
        n < events.len(),
        indexes.len() == n,
        forall|j: int| 0 <= j < n ==> (#[trigger] events@[j]).event_index == indexes[j],
    ensures
        r == next_free(
            event_views(events@),
            indexes,
            events@[n as int].ledger_sequence,
            events@[n as int].transaction_hash@,
            from as int,
        ),
{
    let ghost all = event_views(events@);
    let ghost ledger = events@[n as int].ledger_sequence;
    let ghost tx = events@[n as int].transaction_hash@;
    let mut k: u32 = from;
    while taken(events, n, k, Ghost(indexes))
        invariant
            n < events.len(),
            indexes.len() == n,
            forall|j: int| 0 <= j < n ==> (#[trigger] events@[j]).event_index == indexes[j],
            all == event_views(events@),
            ledger == events@[n as int].ledger_sequence,
            tx == events@[n as int].transaction_hash@,
            next_free(all, indexes, ledger, tx, from as int) == next_free(
                all,
                indexes,
                ledger,
                tx,
                k as int,
            ),
        decreases u32::MAX - k,
    {
        if k == u32::MAX {
            assert(next_free(all, indexes, ledger, tx, k + 1) is None);
            return None;
        }
        k = k + 1;
    }
    Some(k)
}

/// Gives each event of a batch, in order, the first free position from its own on, and the first
/// there is where none is free up there. A transaction has as many positions as `u32` has values.
pub fn assign_unique_event_indexes(events: &mut Vec<SorobanEvent>)
    requires
        old(events)@.len() <= 0x1_0000_0000,
    ensures
        assigned(event_views(old(events)@)) is Some,
        final(events)@.len() == old(events)@.len(),
        forall|i: int|
            0 <= i < old(events)@.len() ==> (#[trigger] final(events)@[i])@ == (EventView {
                event_index: assigned(event_views(old(events)@))->0[i],
                ..old(events)@[i]@
            }),
{
    let ghost orig = event_views(events@);
    let ghost before = events@;
    let ghost mut done: Seq<u32> = Seq::empty();
    let mut i: usize = 0;
    assert(orig.take(0) =~= Seq::<EventView>::empty());
    while i < events.len()
        invariant
            i <= events.len(),
            events.len() == before.len(),
            before.len() <= 0x1_0000_0000,
            orig == event_views(before),
            assigned(orig.take(i as int)) == Some(done),
            done.len() == i,
            forall|j: int|
                0 <= j < i ==> (#[trigger] events@[j])@ == (EventView {
                    event_index: done[j],
                    ..orig[j]
                }),
            forall|j: int| i <= j < events.len() ==> #[trigger] events@[j] == before[j],
        decreases events.len() - i,
    {
        let ghost prefix = orig.take(i + 1);
        let ghost e = orig[i as int];
        let ghost now = event_views(events@);
        assert(prefix.drop_last() =~= orig.take(i as int));
        assert(prefix.last() == e);
        assert(events@[i as int] == before[i as int]);
        assert(events@[i as int]@ == e);
        proof {
            assert forall|j: int| 0 <= j < done.len() implies is_taken_key(
                #[trigger] prefix[j],
                now[j],
            ) by {
                assert(events@[j]@ == (EventView { event_index: done[j], ..orig[j] }));
            }
            lemma_next_free_by_keys(
                prefix,
                now,
                done,
                e.ledger_sequence,
                e.transaction_hash,
                e.event_index as int,
            );
            lemma_next_free_by_keys(prefix, now, done, e.ledger_sequence, e.transaction_hash, 0);
            lemma_some_free(prefix, done, e.ledger_sequence, e.transaction_hash);
            assert forall|j: int| 0 <= j < i implies (#[trigger] events@[j]).event_index
                == done[j] by {
                assert(events@[j]@.event_index == done[j]);
            }
        }
        let k: u32 = match first_free(events, i, events[i].event_index, Ghost(done)) {
            Some(k) => k,
            None => match first_free(events, i, 0, Ghost(done)) {
                Some(k) => k,
                None => vstd::pervasive::unreached(),
            },
        };
        let ghost earlier = events@;
        events[i].event_index = k;
        proof {
            let old_done = done;
            done = done.push(k);
            assert(assigned(prefix) == Some(done));
            assert forall|j: int| 0 <= j < i + 1 implies (#[trigger] events@[j])@ == (EventView {
                event_index: done[j],
                ..orig[j]
            }) by {
                if j < i {
                    assert(events@[j] == earlier[j]);
                    assert(done[j] == old_done[j]);
                } else {
                    assert(earlier[j]@ == orig[j]);
                }
            }
        }
        i = i + 1;
    }
    assert(orig.take(i as int) =~= orig);
}

/// Whether two events belong to the same transaction.
spec fn is_taken_key(a: EventView, b: EventView) -> bool {
    a.ledger_sequence == b.ledger_sequence && a.transaction_hash == b.transaction_hash
}

proof fn lemma_taken_by_keys(
    a: Seq<EventView>,
    b: Seq<EventView>,
    indexes: Seq<u32>,
    ledger: u64,
    tx: Seq<char>,
    k: int,
)
    requires
        indexes.len() <= a.len(),
        indexes.len() <= b.len(),
        forall|j: int| 0 <= j < indexes.len() ==> is_taken_key(#[trigger] a[j], b[j]),
    ensures
        is_taken(a, indexes, ledger, tx, k) == is_taken(b, indexes, ledger, tx, k),
{
    if is_taken(a, indexes, ledger, tx, k) {
        let j = choose|j: int|
            0 <= j < indexes.len() && #[trigger] indexes[j] == k && in_transaction(
                a[j],
                ledger,
                tx,
            );
        assert(is_taken_key(a[j], b[j]));
        assert(indexes[j] == k && in_transaction(b[j], ledger, tx));
    }
    if is_taken(b, indexes, ledger, tx, k) {
        let j = choose|j: int|
            0 <= j < indexes.len() && #[trigger] indexes[j] == k && in_transaction(
                b[j],
                ledger,
                tx,
            );
        assert(is_taken_key(a[j], b[j]));
        assert(indexes[j] == k && in_transaction(a[j], ledger, tx));
    }
}

proof fn lemma_next_free_by_keys(
    a: Seq<EventView>,
    b: Seq<EventView>,
    indexes: Seq<u32>,
    ledger: u64,
    tx: Seq<char>,
    from: int,
)
    requires
        indexes.len() <= a.len(),
        indexes.len() <= b.len(),
        forall|j: int| 0 <= j < indexes.len() ==> is_taken_key(#[trigger] a[j], b[j]),
    ensures
        next_free(a, indexes, ledger, tx, from) == next_free(b, indexes, ledger, tx, from),
    decreases u32::MAX + 1 - from,
{
    if 0 <= from <= u32::MAX {
        lemma_taken_by_keys(a, b, indexes, ledger, tx, from);
        lemma_next_free_by_keys(a, b, indexes, ledger, tx, from + 1);
    }
}

/// Positions count within one transaction of one ledger: events of which no two share both the
/// ledger and the transaction keep their positions, whatever those are.
pub proof fn transactions_do_not_compete(events: Seq<EventView>)
    requires
        forall|i: int, j: int|
            0 <= i < j < events.len() ==> (#[trigger] events[i]).ledger_sequence != (
            #[trigger] events[j]).ledger_sequence || events[i].transaction_hash
                != events[j].transaction_hash,
    ensures
        assigned(events) is Some,
        assigned(events)->0.len() == events.len(),
        forall|i: int|
            0 <= i < events.len() ==> #[trigger] assigned(events)->0[i] == events[i].event_index,
{
    distinct_positions_are_kept(events);
}

/// No two events of one transaction in one ledger come to share a position.
pub proof fn positions_are_unique_within_a_transaction(events: Seq<EventView>, i: int, j: int)
    requires
        assigned(events) is Some,
        0 <= i < j < events.len(),
        events[i].ledger_sequence == events[j].ledger_sequence,
        events[i].transaction_hash == events[j].transaction_hash,
    ensures
        assigned(events)->0[i] != assigned(events)->0[j],
{
    assigned_positions_are_unique(events);
}

} // verus!
