//! The spec that a contract carries in its code: how it is found there, what it says and which
//! known interfaces the contract offers.
pub mod contract;
pub mod interfaces;
pub mod wasm;
