//! Image information aggregation: what is known about a container image right
//! now, gathered from slow sources through an optional cache.
//!
//! The crate holds the decisions only. Whoever drives it performs the network
//! calls, the cache round trips and the scanner runs, and reports their outcomes
//! back as plain values.

pub mod cache;
pub mod certificate;
pub mod command;
pub mod filters;
pub mod image;
pub mod manifest;
pub mod orchestrator;
pub mod ordered;
pub mod provenance;
pub mod scan;
pub mod signature;
pub mod strmap;
pub mod text;
pub mod time;
pub mod verify;
