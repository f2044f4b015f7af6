//! A dynamic-DNS updater library.
//!
//! The library holds the decision logic of a single update cycle: extracting
//! the caller's public IPv4 address from a trace-style `key=value` response,
//! matching configured subdomains against the DNS records of a zone, planning
//! the per-record update requests, and judging the provider's responses.
//! All network traffic, configuration loading and serialization stay with the
//! embedding program, which hands this library plain values.

pub mod config;
pub mod errors;
pub mod ip;
pub mod matching;
pub mod update;
