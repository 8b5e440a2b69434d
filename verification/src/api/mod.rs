//! The query service: its configuration, its requests and answers, and the stream that it hands on
//! to subscribers.
pub mod config;
pub mod events;
pub mod stream;
