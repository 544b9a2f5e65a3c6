//! Session-gated telemetry store.
//!
//! Registered users own devices; telemetry messages for those devices are
//! ingested from a publish/subscribe transport and queried through a
//! session-authenticated interface. Every operation is specified by a
//! contract over a mathematical view of the store and verified.

pub mod config;
pub mod database;
pub mod mqtt;
pub mod request;
pub mod response;
pub mod server;
pub mod token;
