//! Points in time, read from and written as RFC 3339 text.
use vstd::prelude::*;

use crate::errors::ErrorSource;
use crate::errors::TridentError;

verus! {

broadcast use vstd::string::group_string_axioms;

/// A point in time: whole seconds since the start of 1970 in UTC, and nanoseconds on top.
#[derive(Debug, Clone, Copy, PartialEq, Eq, Structural)]
pub struct Timestamp {
    pub seconds: i64,
    pub nanos: u32,
}

/// The point in time that a text reads as, or the text of the error.
pub uninterp spec fn timestamp_read(text: Seq<char>) -> Result<Timestamp, Seq<char>>;

/// `DateTime::<Utc>::from_str` of the `chrono` crate. The error is handed on as its text.
#[verifier::external_body]
pub(crate) fn read_timestamp(text: &str) -> (r: Result<Timestamp, String>)
    ensures
        match r {
            Ok(t) => timestamp_read(text@) == Ok::<Timestamp, Seq<char>>(t),
            Err(e) => timestamp_read(text@) == Err::<Timestamp, Seq<char>>(e@),
        },
{
    match text.parse::<chrono::DateTime<chrono::Utc>>() {
        Ok(t) => Ok(Timestamp { seconds: t.timestamp(), nanos: t.timestamp_subsec_nanos() }),
        Err(e) => Err(e.to_string()),
    }
}

/// A point in time as RFC 3339 text in UTC, where it can be written so.
pub uninterp spec fn rfc3339(t: Timestamp) -> Option<Seq<char>>;

/// `DateTime::<Utc>::from_timestamp` and `to_rfc3339` of the `chrono` crate.
#[verifier::external_body]
fn write_rfc3339(t: Timestamp) -> (r: Option<String>)
    ensures
        match r {
            Some(text) => rfc3339(t) == Some(text@),
            None => rfc3339(t) is None,
        },
{
    chrono::DateTime::<chrono::Utc>::from_timestamp(t.seconds, t.nanos).map(|d| d.to_rfc3339())
}

/// Writes a point in time as RFC 3339 text in UTC. There is no text for what is too far away or
/// has too many nanoseconds.
pub fn time_text(t: Timestamp) -> (r: Option<String>)
    ensures
        match r {
            Some(text) => rfc3339(t) == Some(text@),
            None => rfc3339(t) is None,
        },
{
    write_rfc3339(t)
}

/// The point in time at which a ledger closed, or the message of the error.
pub open spec fn ledger_time_of(text: Seq<char>) -> Result<Timestamp, Seq<char>> {
    match timestamp_read(text) {
        Ok(t) => Ok(t),
        Err(e) => Err("ledger timestamp parse"@ + ": "@ + e),
    }
}

/// Reads the point in time at which a ledger closed.
pub fn ledger_time(text: &str) -> (r: Result<Timestamp, TridentError>)
    ensures
        match r {
            Ok(t) => ledger_time_of(text@) == Ok::<Timestamp, Seq<char>>(t),
            Err(e) => e is StorageError && ledger_time_of(text@) == Err::<Timestamp, Seq<char>>(
                e.cause().text(),
            ),
        },
{
    match read_timestamp(text) {
        Ok(t) => Ok(t),
        Err(e) => Err(
            TridentError::storage(
                ErrorSource::msg(e).context("ledger timestamp parse".to_owned()),
            ),
        ),
    }
}

/// The time of a ledger is what its text reads as; a text that cannot be read is refused with the
/// reason.
pub proof fn ledger_times_are_those_of_their_text(text: Seq<char>, t: Timestamp, e: Seq<char>)
    ensures
        timestamp_read(text) == Ok::<Timestamp, Seq<char>>(t) ==> ledger_time_of(text) == Ok::<
            Timestamp,
            Seq<char>,
        >(t),
        timestamp_read(text) == Err::<Timestamp, Seq<char>>(e) ==> ledger_time_of(text) == Err::<
            Timestamp,
            Seq<char>,
        >("ledger timestamp parse"@ + ": "@ + e),
{
}

} // verus!
