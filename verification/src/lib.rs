//! Recovery of structured log records written by an embedded device into raw
//! flash memory.
//!
//! The crate reconstructs a type-schema tree from a compiled binary's static
//! data section, caches schema trees by an 8-byte fingerprint, parses an
//! append-only page-erasable queue format out of a raw flash dump, and decodes
//! each data record against the active schema into a generic typed value tree.

pub mod blocking_async;
pub mod cache;
pub mod codec;
pub mod error;
pub mod fingerprint;
pub mod flash_log;
pub mod flash_utils;
pub mod record;
pub mod records;
pub mod schema;
pub mod schema_restorer;
pub mod utf8;

pub use error::Error;
