//! Incremental, crash-safe pruning of a versioned, append-only ledger store.
//!
//! A pruner keeps two marks: the least readable version, below which data is
//! gone, and the target version it works toward. One pruning step removes a
//! bounded half-open range of versions and then raises the least readable
//! version to the end of that range. The store itself is not part of this
//! crate: a pruner says which range to read and which deletions belong to the
//! step, the caller performs them against the store in one atomic batch, and
//! the pruner is told how that went.

pub mod candidates;
pub mod db_pruner;
pub mod event_store_pruner;
pub mod progress;
pub mod write_set_pruner;
