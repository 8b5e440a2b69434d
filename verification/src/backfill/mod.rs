//! Backfilling: fetching the events of past ledgers.
pub mod parser;
pub mod queue;
pub mod run;
