//! What the RPC client decides: which filters to send, which endpoint to use and how to count a
//! failure against it.
pub mod client;
pub mod endpoints;
pub mod filters;
pub mod health;
pub mod requests;
