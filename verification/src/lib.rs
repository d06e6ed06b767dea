//! A small snippet store: short text notes kept as individual files in a
//! per-user storage directory.
//!
//! The library holds everything that can be decided without touching the
//! filesystem: resolving the storage directory from the home directory or an
//! explicit override, validating command arguments, rendering the listing of
//! a directory's entries, and a model of the store itself on which the
//! store's guarantees (round-trip, overwrite, listing) are proved.

pub mod decimal;
pub mod errors;
pub mod laws;
pub mod listing;
pub mod paths;
pub mod store;

pub use errors::SnippetStoreError;
