//! The live indexer: decoding, storage, the RPC client's decisions, alerting and reconciliation.
pub mod alerting;
pub mod config;
pub mod db;
pub mod ledger;
pub mod parser;
pub mod probes;
pub mod reconcile;
pub mod rpc;
pub mod sac_bootstrap;
pub mod spec;
pub mod storage;
pub mod walk;
