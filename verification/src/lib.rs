//! A verified persistence adapter between a contract-execution engine and a
//! durable, ordered key-value store.
//!
//! The adapter serves the engine's point reads (account information, storage
//! slots, block hashes), caches slot reads within one execution session, and
//! applies each commit as a single atomic write batch. Per-slot changes are
//! classified into dispositions (write, delete, no-op) and tallied; account
//! lifecycles (not existing, storage cleared, touched) gate whether an
//! unread slot may be assumed zero. Because the engine-facing commit
//! signature cannot return an error, a commit failure poisons the adapter:
//! every later operation fails until the instance is discarded.
//!
//! The backing store and the serialization codec are outside crates, reached
//! only through the trusted wrappers in `store` and `keys`; everything else
//! is verified against the commit model in `plan`, whose laws are proved in
//! `laws`.

pub mod account_state;
pub mod addr;
pub mod db;
pub mod error;
pub mod hash;
pub mod keys;
pub mod laws;
pub mod plan;
pub mod stats;
pub mod store;
pub mod word256;
