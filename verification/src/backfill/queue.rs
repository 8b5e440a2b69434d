//! Working off the queue of ranges to backfill, and what is counted on the way.
use vstd::prelude::*;

use crate::backfill::run::RangeRun;
use crate::backfill::run::RunView;
use crate::backfill::run::MAX_CONSECUTIVE_RPC_FAILURES;
use crate::errors::TridentError;
use crate::json::put_number;
use crate::json::Json;
use crate::json::JsonMember;
use crate::json::JsonView;
use crate::wide::wrap_u64;
use crate::wide::wrapped_u64;

verus! {

broadcast use vstd::string::group_string_axioms;

/// A range to backfill, taken from the queue.
#[derive(Debug)]
pub struct BackfillJob {
    pub id: [u8; 16],
    pub from_ledger: u64,
    pub to_ledger: u64,
    pub network: String,
}

impl BackfillJob {
    /// The job that a row of the queue stands for.
    pub fn from_row(id: [u8; 16], from_ledger: i64, to_ledger: i64, network: String) -> (r: Self)
        ensures
            r.id@ == id@,
            r.from_ledger == wrapped_u64(from_ledger),
            r.to_ledger == wrapped_u64(to_ledger),
            r.network@ == network@,
    {
        BackfillJob {
            id,
            from_ledger: wrap_u64(from_ledger),
            to_ledger: wrap_u64(to_ledger),
            network,
        }
    }

    /// The run over the range of the job. Nobody watches it, so it gives up after so many failures
    /// in a row.
    pub fn run(&self) -> (r: RangeRun)
        ensures
            r@ == RunView::start(self.from_ledger, self.to_ledger, Some(10)),
    {
        RangeRun::new(self.from_ledger, self.to_ledger, Some(MAX_CONSECUTIVE_RPC_FAILURES))
    }
}

/// What the worker of the queue does after it has asked for a job.
#[derive(Debug)]
pub enum QueueAction {
    /// Backfill the range of a job.
    Backfill(BackfillJob),
    /// Ask again later.
    Wait,
}

/// What the worker does after it has asked for a job: where there is none, or it could not be
/// told, it asks again later.
pub fn after_claim(claimed: Result<Option<BackfillJob>, TridentError>) -> (r: QueueAction)
    ensures
        match claimed {
            Ok(Some(job)) => r == QueueAction::Backfill(job),
            Ok(None) => r is Wait,
            Err(_) => r is Wait,
        },
{
    match claimed {
        Ok(Some(job)) => QueueAction::Backfill(job),
        _ => QueueAction::Wait,
    }
}

/// How a job is closed.
#[derive(Debug)]
pub enum JobClose {
    Complete,
    /// It failed, with the text of the error.
    Fail(String),
}

/// How a job is closed after its range was worked on.
pub fn after_run(outcome: &Result<(), TridentError>) -> (r: JobClose)
    ensures
        match *outcome {
            Ok(_) => r is Complete,
            Err(e) => r is Fail && r->Fail_0@ == e.text(),
        },
{
    match outcome {
        Ok(_) => JobClose::Complete,
        Err(e) => JobClose::Fail(e.to_string()),
    }
}

/// What became of an event that was selected.
#[derive(Debug, Clone, Copy, PartialEq, Eq, Structural)]
pub enum Outcome {
    /// It was only looked at.
    Shown,
    Stored,
    /// The database did not take it.
    Refused,
}

impl Outcome {
    /// What became of an event that was written, by whether the database took it.
    pub fn of_insert(stored: bool) -> (r: Self)
        ensures
            r == if stored {
                Outcome::Stored
            } else {
                Outcome::Refused
            },
    {
        if stored {
            Outcome::Stored
        } else {
            Outcome::Refused
        }
    }
}

/// What was counted during a backfill.
#[derive(Debug, Clone, Copy, PartialEq, Eq, Structural)]
pub struct Tally {
    pub events_indexed: u64,
    pub duplicates_skipped: u64,
}

impl Default for Tally {
    fn default() -> (r: Self)
        ensures
            r.events_indexed == 0,
            r.duplicates_skipped == 0,
    {
        Tally { events_indexed: 0, duplicates_skipped: 0 }
    }
}

/// One more, or none after the largest number.
pub open spec fn one_more(n: u64) -> u64 {
    if n == u64::MAX {
        0
    } else {
        (n + 1) as u64
    }
}

impl Tally {
    /// Counts an event. The answer is whether it is to be printed: one that was only looked at is,
    /// as long as there are not more than ten.
    pub fn count(&mut self, outcome: Outcome) -> (r: bool)
        ensures
            *final(self) == (match outcome {
                Outcome::Refused => Tally {
                    duplicates_skipped: one_more(old(self).duplicates_skipped),
                    ..*old(self)
                },
                _ => Tally { events_indexed: one_more(old(self).events_indexed), ..*old(self) },
            }),
            r == (outcome == Outcome::Shown && final(self).events_indexed <= 10),
    {
        match outcome {
            Outcome::Refused => {
                self.duplicates_skipped = self.duplicates_skipped.wrapping_add(1);
                false
            },
            Outcome::Stored => {
                self.events_indexed = self.events_indexed.wrapping_add(1);
                false
            },
            Outcome::Shown => {
                self.events_indexed = self.events_indexed.wrapping_add(1);
                self.events_indexed <= 10
            },
        }
    }

    /// What is reported at the end of a backfill.
    pub open spec fn summary_json(self, ledgers: u64, seconds: u64) -> JsonView {
        JsonView::Object(
            Map::<Seq<char>, JsonView>::empty().insert(
                "ledgers_processed"@,
                JsonView::Number(ledgers as int),
            ).insert("events_indexed"@, JsonView::Number(self.events_indexed as int)).insert(
                "duplicates_skipped"@,
                JsonView::Number(self.duplicates_skipped as int),
            ).insert("duration_seconds"@, JsonView::Number(seconds as int)),
        )
    }

    /// What is reported at the end of a backfill.
    pub fn summary(&self, ledgers: u64, seconds: u64) -> (r: Json)
        ensures
            r@ == self.summary_json(ledgers, seconds),
    {
        let mut m: Vec<JsonMember> = Vec::new();
        put_number(&mut m, "ledgers_processed", ledgers as i128);
        put_number(&mut m, "events_indexed", self.events_indexed as i128);
        put_number(&mut m, "duplicates_skipped", self.duplicates_skipped as i128);
        put_number(&mut m, "duration_seconds", seconds as i128);
        Json::Object(m)
    }
}

/// The report of a backfill has just four members, each the number that its name says.
pub proof fn reports_name_their_numbers(tally: Tally, ledgers: u64, seconds: u64)
    ensures
        tally.summary_json(ledgers, seconds) is Object,
        ({
            let m = tally.summary_json(ledgers, seconds)->Object_0;
            &&& m.dom() == set![
                "ledgers_processed"@,
                "events_indexed"@,
                "duplicates_skipped"@,
                "duration_seconds"@,
            ]
            &&& m["ledgers_processed"@] == JsonView::Number(ledgers as int)
            &&& m["events_indexed"@] == JsonView::Number(tally.events_indexed as int)
            &&& m["duplicates_skipped"@] == JsonView::Number(tally.duplicates_skipped as int)
            &&& m["duration_seconds"@] == JsonView::Number(seconds as int)
        }),
{
    reveal_strlit("ledgers_processed");
    reveal_strlit("events_indexed");
    reveal_strlit("duplicates_skipped");
    reveal_strlit("duration_seconds");
    assert("ledgers_processed"@.len() == 17 && "events_indexed"@.len() == 14
        && "duplicates_skipped"@.len() == 18 && "duration_seconds"@.len() == 16);
    assert(tally.summary_json(ledgers, seconds)->Object_0.dom() =~= set![
        "ledgers_processed"@,
        "events_indexed"@,
        "duplicates_skipped"@,
        "duration_seconds"@,
    ]);
}

/// A count goes up by one and starts anew after the largest number.
pub proof fn counts_go_up_by_one(n: u64)
    ensures
        n < u64::MAX ==> one_more(n) == n + 1,
        one_more(0xffff_ffff_ffff_ffff) == 0,
{
}

/// A job has the id, the range and the network of its row, each in its own place.
pub proof fn jobs_hold_their_row(id: [u8; 16], from: i64, to: i64, network: String, job: BackfillJob)
    requires
        call_ensures(BackfillJob::from_row, (id, from, to, network), job),
        from >= 0,
        to >= 0,
    ensures
        job.id@ == id@,
        job.from_ledger == from,
        job.to_ledger == to,
        job.network@ == network@,
{
}

/// A job is worked on in its own range and given up after the tenth failure in a row.
pub proof fn jobs_run_over_their_range(job: BackfillJob, run: RangeRun)
    requires
        call_ensures(BackfillJob::run, (&job,), run),
    ensures
        run@.from_ledger == job.from_ledger,
        run@.to_ledger == job.to_ledger,
        run@.seq == job.from_ledger,
        run@.max_failures == Some(10u32),
{
}

/// A job that was claimed is worked on; without one, or where it could not be told, the worker
/// waits. What was worked on is closed as complete, or as failed with the text of the error.
pub proof fn jobs_are_worked_on_and_closed(
    claimed: Result<Option<BackfillJob>, TridentError>,
    action: QueueAction,
    outcome: Result<(), TridentError>,
    close: JobClose,
)
    requires
        call_ensures(after_claim, (claimed,), action),
        call_ensures(after_run, (&outcome,), close),
    ensures
        claimed matches Ok(Some(job)) ==> action == QueueAction::Backfill(job),
        claimed matches Ok(None) ==> action is Wait,
        claimed is Err ==> action is Wait,
        outcome is Ok ==> close is Complete,
        outcome matches Err(e) ==> close is Fail && close->Fail_0@ == e.text(),
{
}

/// What the database took is stored, and what it did not take is refused.
pub proof fn inserts_are_stored_or_refused(stored: bool, r: Outcome)
    requires
        call_ensures(Outcome::of_insert, (stored,), r),
    ensures
        stored ==> r == Outcome::Stored,
        !stored ==> r == Outcome::Refused,
{
}

/// What was stored or shown counts as indexed and what was refused as a duplicate, one each; the
/// first ten that are shown are printed.
pub proof fn tallies_count_by_outcome(t: &mut Tally, outcome: Outcome, printed: bool)
    requires
        call_ensures(Tally::count, (t, outcome), printed),
        old(t).events_indexed < u64::MAX,
        old(t).duplicates_skipped < u64::MAX,
    ensures
        outcome == Outcome::Refused ==> final(t).duplicates_skipped == old(t).duplicates_skipped + 1
            && final(t).events_indexed == old(t).events_indexed && !printed,
        outcome != Outcome::Refused ==> final(t).events_indexed == old(t).events_indexed + 1
            && final(t).duplicates_skipped == old(t).duplicates_skipped,
        outcome == Outcome::Stored ==> !printed,
        outcome == Outcome::Shown ==> (printed <==> old(t).events_indexed < 10),
{
}

} // verus!
