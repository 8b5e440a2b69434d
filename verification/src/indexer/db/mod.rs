//! What the storage layer decides: which failures are worth a retry, what the rows of a page hold,
//! and in which steps a page is written.
pub mod columns;
pub mod commit;
pub mod failures;
pub mod outbox;
pub mod partitions;
pub mod store;
