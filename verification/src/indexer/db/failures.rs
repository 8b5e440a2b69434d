//! Storage failures: the database is the problem, or the data is.
use vstd::prelude::*;

use crate::errors::ErrorSource;
use crate::errors::StorageFault;
use crate::errors::TridentError;
use crate::text::begins_with;
use crate::text::dec;
use crate::text::dec_parses_back;
use crate::text::parse_bounded;
use crate::text::parse_u64;
use crate::text::same;
use crate::text::starts_with;

verus! {

broadcast use vstd::string::group_string_axioms;

/// What kind of failure it is.
#[derive(Debug, Clone, Copy, PartialEq, Eq, Structural)]
pub enum StorageFailure {
    /// The database is unavailable or overloaded: it may help to try again.
    Transient,
    /// The data cannot be stored: it never helps to try again.
    Permanent,
}

/// What the driver reported, where any cause in the chain stands for a report; the outermost such
/// cause counts.
pub open spec fn reported_fault(source: ErrorSource) -> Option<StorageFault>
    decreases source,
{
    match source.fault {
        Some(fault) => Some(fault),
        None => match source.below {
            Some(below) => reported_fault(*below),
            None => None,
        },
    }
}

/// Whether an SQLSTATE tells of a database that is unavailable: a lost connection, exhausted
/// resources, an operator's intervention, or a transaction that lost to another.
pub open spec fn transient_code(code: Seq<char>) -> bool {
    begins_with(code, "08"@) || begins_with(code, "53"@) || begins_with(code, "57"@) || code
        == "40001"@ || code == "40P01"@
}

/// Whether a report tells of a database that is unavailable.
pub open spec fn transient_fault(fault: StorageFault) -> bool {
    match fault {
        StorageFault::Io => true,
        StorageFault::Tls => true,
        StorageFault::Protocol => true,
        StorageFault::PoolTimedOut => true,
        StorageFault::PoolClosed => true,
        StorageFault::WorkerCrashed => true,
        StorageFault::Database { code: Some(code) } => transient_code(code@),
        StorageFault::Database { code: None } => false,
        StorageFault::Other => false,
    }
}

/// What kind of failure an error is. One that the driver did not report is the data's fault.
pub open spec fn failure_of(err: TridentError) -> StorageFailure {
    if err is StorageError && reported_fault(err.cause()) is Some && transient_fault(
        reported_fault(err.cause())->0,
    ) {
        StorageFailure::Transient
    } else {
        StorageFailure::Permanent
    }
}

fn find_fault(source: &ErrorSource) -> (r: Option<&StorageFault>)
    ensures
        match r {
            Some(fault) => reported_fault(*source) == Some(*fault),
            None => reported_fault(*source) is None,
        },
    decreases source,
{
    match &source.fault {
        Some(fault) => Some(fault),
        None => match &source.below {
            Some(below) => find_fault(below),
            None => None,
        },
    }
}

/// Tells whether a storage error is the database's fault or that of the data.
pub fn classify_storage_failure(err: &TridentError) -> (r: StorageFailure)
    ensures
        r == failure_of(*err),
{
    let source = match err {
        TridentError::StorageError { source } => source,
        _ => return StorageFailure::Permanent,
    };
    let fault = match find_fault(source) {
        Some(fault) => fault,
        None => return StorageFailure::Permanent,
    };
    match fault {
        StorageFault::Io
        | StorageFault::Tls
        | StorageFault::Protocol
        | StorageFault::PoolTimedOut
        | StorageFault::PoolClosed
        | StorageFault::WorkerCrashed => StorageFailure::Transient,
        StorageFault::Database { code: Some(code) } => {
            let c = code.as_str();
            if starts_with(c, "08") || starts_with(c, "53") || starts_with(c, "57") || same(
                c,
                "40001",
            ) || same(c, "40P01") {
                StorageFailure::Transient
            } else {
                StorageFailure::Permanent
            }
        },
        StorageFault::Database { code: None } => StorageFailure::Permanent,
        StorageFault::Other => StorageFailure::Permanent,
    }
}

/// The messages put around a report do not change what kind of failure it is, and no error but one
/// of storage is ever transient.
pub proof fn context_keeps_the_kind_of_failure(
    inner: ErrorSource,
    outer: ErrorSource,
    err: TridentError,
)
    requires
        outer.fault is None,
        outer.below == Some(Box::new(inner)),
    ensures
        failure_of(TridentError::StorageError { source: outer }) == failure_of(
            TridentError::StorageError { source: inner },
        ),
        !(err is StorageError) ==> failure_of(err) == StorageFailure::Permanent,
{
}

/// What is said of a text that is no number.
pub uninterp spec fn not_a_number(text: Seq<char>) -> Seq<char>;

/// The error text of std's `u64::from_str`, for a text that is no number of 64 bits.
#[verifier::external_body]
fn number_error(text: &str) -> (r: String)
    ensures
        r@ == not_a_number(text@),
{
    text.parse::<u64>().err().map(|e| e.to_string()).unwrap_or_default()
}

/// Reads the cursor as it is stored.
pub fn stored_cursor(value: &str) -> (r: Result<u64, TridentError>)
    ensures
        match r {
            Ok(n) => parse_bounded(value@, u64::MAX as nat) == Some(n as nat),
            Err(e) => parse_bounded(value@, u64::MAX as nat) is None && e is StorageError
                && e.cause().text() == "cursor parse"@ + ": "@ + not_a_number(value@),
        },
{
    match parse_u64(value) {
        Some(n) => Ok(n),
        None => Err(
            TridentError::storage(
                ErrorSource::msg(number_error(value)).context("cursor parse".to_owned()),
            ),
        ),
    }
}

/// The length of a poll in whole milliseconds, as far as a 32-bit number can tell.
pub fn poll_millis(nanos: u128) -> (r: i32)
    ensures
        r == if nanos / 1_000_000 <= i32::MAX {
            (nanos / 1_000_000) as i32
        } else {
            i32::MAX
        },
{
    let millis: u128 = nanos / 1_000_000;
    if millis <= i32::MAX as u128 {
        millis as i32
    } else {
        i32::MAX
    }
}

/// How the replay of a failed event turned out.
#[derive(Debug, Clone, Copy, PartialEq, Eq, Structural)]
pub enum ReplayOutcome {
    /// The event is stored, and marked as replayed.
    Replayed,
    /// There was nothing to replay: there is no such event, or it was replayed before.
    AlreadyReplayedOrMissing,
}

/// How a replay turned out, by whether the event was found and how many rows were marked. Where
/// another replay was faster no row is.
pub fn replay_outcome(found: bool, rows_marked: u64) -> (r: ReplayOutcome)
    ensures
        r == ReplayOutcome::Replayed <==> found && rows_marked > 0,
{
    if found && rows_marked > 0 {
        ReplayOutcome::Replayed
    } else {
        ReplayOutcome::AlreadyReplayedOrMissing
    }
}

/// Trouble with the connection, the pool or the driver may pass; what else the driver reports is
/// the data's fault.
pub proof fn trouble_with_the_connection_may_pass(source: ErrorSource, fault: StorageFault)
    requires
        source.fault == Some(fault),
    ensures
        ({
            let failure = failure_of(TridentError::StorageError { source });
            &&& (fault is Io || fault is Tls || fault is Protocol || fault is PoolTimedOut
                || fault is PoolClosed || fault is WorkerCrashed) ==> failure
                == StorageFailure::Transient
            &&& fault is Other ==> failure == StorageFailure::Permanent
            &&& fault matches StorageFault::Database { code } ==> (code is None ==> failure
                == StorageFailure::Permanent)
            &&& fault matches StorageFault::Database { code } ==> (code is Some ==> (failure
                == StorageFailure::Transient <==> transient_code(code->0@)))
        }),
{
}

/// A report without any fault in its chain is the data's fault.
pub proof fn unreported_failures_are_permanent(source: ErrorSource)
    requires
        source.fault is None,
        source.below is None,
    ensures
        failure_of(TridentError::StorageError { source }) == StorageFailure::Permanent,
{
}

/// The codes that may pass are those of the classes of lost connections, of exhausted resources and
/// of an operator's intervention, and the two of transactions that lost to another.
pub proof fn codes_that_may_pass(rest: Seq<char>, code: Seq<char>)
    ensures
        transient_code(seq!['0', '8'] + rest),
        transient_code(seq!['5', '3'] + rest),
        transient_code(seq!['5', '7'] + rest),
        transient_code(seq!['4', '0', '0', '0', '1']),
        transient_code(seq!['4', '0', 'P', '0', '1']),
        transient_code(code) ==> code.len() >= 2 && (code[0] == '0' && code[1] == '8' || code[0]
            == '5' && (code[1] == '3' || code[1] == '7') || code == seq!['4', '0', '0', '0', '1']
            || code == seq!['4', '0', 'P', '0', '1']),
{
    reveal_strlit("08");
    reveal_strlit("53");
    reveal_strlit("57");
    reveal_strlit("40001");
    reveal_strlit("40P01");
    assert("08"@ =~= seq!['0', '8']);
    assert("53"@ =~= seq!['5', '3']);
    assert("57"@ =~= seq!['5', '7']);
    assert("40001"@ =~= seq!['4', '0', '0', '0', '1']);
    assert("40P01"@ =~= seq!['4', '0', 'P', '0', '1']);
    assert((seq!['0', '8'] + rest).take(2) =~= "08"@);
    assert((seq!['5', '3'] + rest).take(2) =~= "53"@);
    assert((seq!['5', '7'] + rest).take(2) =~= "57"@);
    if begins_with(code, "08"@) {
        assert(code.take(2)[0] == code[0] && code.take(2)[1] == code[1]);
    }
    if begins_with(code, "53"@) {
        assert(code.take(2)[0] == code[0] && code.take(2)[1] == code[1]);
    }
    if begins_with(code, "57"@) {
        assert(code.take(2)[0] == code[0] && code.take(2)[1] == code[1]);
    }
}

/// A cursor is read as the number that it is, and refused where it is none.
pub proof fn cursors_are_read_as_numbers(value: &str, r: Result<u64, TridentError>, n: u64)
    requires
        call_ensures(stored_cursor, (value,), r),
    ensures
        value@ == dec(n as nat) ==> r is Ok && r->Ok_0 == n,
        parse_bounded(value@, u64::MAX as nat) is None ==> r is Err && r->Err_0 is StorageError,
{
    dec_parses_back(n as nat);
}

/// Milliseconds are whole millions of nanoseconds, cut off at the largest number.
pub proof fn polls_are_told_in_milliseconds(nanos: u128, r: i32)
    requires
        call_ensures(poll_millis, (nanos,), r),
    ensures
        nanos < 0x8000_0000 * 1_000_000 ==> r * 1_000_000 <= nanos < (r + 1) * 1_000_000,
        nanos >= 0x8000_0000 * 1_000_000 ==> r == 0x7fff_ffff,
{
}

/// A replay counts where the event was found and a row was marked, and not otherwise.
pub proof fn replays_need_a_marked_row(found: bool, rows_marked: u64, r: ReplayOutcome)
    requires
        call_ensures(replay_outcome, (found, rows_marked), r),
    ensures
        found && rows_marked >= 1 ==> r == ReplayOutcome::Replayed,
        !found || rows_marked == 0 ==> r == ReplayOutcome::AlreadyReplayedOrMissing,
{
}

} // verus!
