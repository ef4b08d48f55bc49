//! A command-line task tracker backed by an embedded relational store. The
//! heart of the library is the import reconciliation logic: merging an
//! externally supplied JSON task list into the persisted store with an
//! upsert-by-id policy, lenient per-field validation and defaulting, and a
//! non-destructive preview mode, together with the store operations and the
//! JSON export they rest on.

pub mod args;
pub mod error;
pub mod export;
pub mod json;
pub mod laws;
pub mod reconcile;
pub mod store;
