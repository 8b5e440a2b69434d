//! Decoding of raw RPC events into normalised events and their typed projections.
pub mod events;
pub mod indexes;
pub mod invocation_metrics;
pub mod nft_events;
pub mod sac;
pub mod token_events;
