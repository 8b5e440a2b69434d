//! The parser of the backfill. It normalises events just as the live indexer does, without
//! projections.
use vstd::prelude::*;

use crate::errors::TridentError;
use crate::raw::NormalisedView;
use crate::raw::normalise;
use crate::raw::normalised;
use crate::raw::RawEvent;
use crate::raw::RawView;
use crate::types::EventView;
use crate::types::SorobanEvent;

verus! {

/// A parser of raw events.
#[derive(Debug)]
pub struct Parser {
    /// Whether diagnostic events are kept.
    pub index_diagnostic: bool,
}

/// The event that a raw event stands for: nothing where it is skipped, or the message of the error.
pub open spec fn parsed(raw: RawView, index_diagnostic: bool) -> Result<
    Option<EventView>,
    Seq<char>,
> {
    match normalised(raw, index_diagnostic) {
        Err(e) => Err(e),
        Ok(None) => Ok(None),
        Ok(Some(n)) => Ok(Some(n.event)),
    }
}

impl Parser {
    /// A parser that keeps diagnostic events or skips them.
    pub fn new(index_diagnostic: bool) -> (r: Self)
        ensures
            r.index_diagnostic == index_diagnostic,
    {
        Parser { index_diagnostic }
    }

    /// Parses a raw event.
    pub fn parse_event(&self, raw: &RawEvent) -> (r: Result<Option<SorobanEvent>, TridentError>)
        ensures
            match r {
                Ok(None) => parsed(raw@, self.index_diagnostic) == Ok::<
                    Option<EventView>,
                    Seq<char>,
                >(None),
                Ok(Some(event)) => parsed(raw@, self.index_diagnostic) == Ok::<
                    Option<EventView>,
                    Seq<char>,
                >(Some(event@)),
                Err(e) => e is ParseError && parsed(raw@, self.index_diagnostic) == Err::<
                    Option<EventView>,
                    Seq<char>,
                >(e.cause().text()),
            },
    {
        match normalise(raw, self.index_diagnostic) {
            Err(e) => Err(e),
            Ok(None) => Ok(None),
            Ok(Some(n)) => Ok(Some(n.event)),
        }
    }
}

/// The backfill gives just the event that the live indexer gives, skips just what that skips and
/// refuses just what that refuses, with the same message.
pub proof fn backfills_parse_as_the_live_indexer(
    raw: RawView,
    index_diagnostic: bool,
    n: NormalisedView,
    e: Seq<char>,
)
    ensures
        normalised(raw, index_diagnostic) == Ok::<Option<NormalisedView>, Seq<char>>(Some(n))
            ==> parsed(raw, index_diagnostic) == Ok::<Option<EventView>, Seq<char>>(Some(n.event)),
        normalised(raw, index_diagnostic) == Ok::<Option<NormalisedView>, Seq<char>>(None)
            ==> parsed(raw, index_diagnostic) == Ok::<Option<EventView>, Seq<char>>(None),
        normalised(raw, index_diagnostic) == Err::<Option<NormalisedView>, Seq<char>>(e) ==> parsed(
            raw,
            index_diagnostic,
        ) == Err::<Option<EventView>, Seq<char>>(e),
{
}

} // verus!
