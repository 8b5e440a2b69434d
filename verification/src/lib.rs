//! An indexer of Soroban contract events, with a backfill and a query service beside it, and the
//! reference contracts that it is tried on.
pub mod api;
pub mod backfill;
pub mod clock;
pub mod codec;
pub mod contracts;
pub mod decode;
pub mod errors;
pub mod ids;
pub mod indexer;
pub mod json;
pub mod order;
pub mod raw;
pub mod scval;
pub mod scval_json;
pub mod settings;
pub mod strkey;
pub mod text;
pub mod timestamp;
pub mod types;
pub mod unexpected;
pub mod wide;
pub mod xdr;
