//! Core of a game save manager: discovers game installations from
//! heterogeneous, unreliable sources, reconciles them against a reference
//! catalog, resolves per-game save-data locations through a small
//! path-templating language, and emits scored candidate save locations.
//!
//! The pipeline itself performs no I/O: scanners take manifest text,
//! directory listings and parsed documents as plain values; the resolver
//! takes every environment value and special folder through an explicit
//! context; existence probes are handed in as booleans. What each of those
//! values means is stated in contracts and verified.

pub mod backup;
pub mod catalog;
pub mod cloud;
pub mod config;
pub mod enrich;
pub mod ipc;
pub mod jsontree;
pub mod matcher;
pub mod progress;
pub mod query;
pub mod quick;
pub mod resolver;
pub mod scan;
pub mod score;
pub mod strutil;
pub mod synth;
pub mod types;
pub mod updater;
