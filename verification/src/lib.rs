//! Directory-cleanup engine: walks an in-memory model of a directory tree,
//! aggregates subtree byte sizes (serially or with parallel fan-out, chosen
//! per directory by a pure policy), matches directory names against a target
//! set, and streams progress events and matched entries to a consumer.

pub mod aggregate;
pub mod lifecycle;
pub mod matcher;
pub mod model;
pub mod models;
pub mod order;
pub mod policy;
pub mod progress;
pub mod search;
pub mod sums;
pub mod text;
pub mod units;
