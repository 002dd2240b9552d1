//! The error kinds that the decode pipeline can report.
//!
//! Every failure inside the layout decoder, the cache, or the log decoder is
//! surfaced as a typed result; none are silently swallowed and none are
//! retried.

use vstd::prelude::*;

verus! {

/// A failure while walking a binary image, the schema cache, or a flash dump.
#[derive(Debug, Clone, Copy, PartialEq, Eq, Structural)]
pub enum Error {
    /// The requested symbol does not occur in the binary's symbol table.
    SymbolNotFound,
    /// A section index or a virtual address fell outside every section range.
    SectionOutOfBounds,
    /// An out-of-range byte access while walking the binary or the flash
    /// buffer.
    TruncatedRead,
    /// An unrecognized discriminant byte in a schema descriptor.
    UnknownTag(u8),
    /// Bytes that must form UTF-8 text do not.
    InvalidUtf8,
    /// A type, field or variant name that is empty, which the schema
    /// tree's invariant rules out.
    EmptyName,
    /// The descriptor walk exceeded the depth bound derived from the image
    /// size, which only a cyclic (hence corrupt) descriptor graph can cause.
    CyclicDescriptor,
    /// A fingerprint that is absent from the schema cache.
    SchemaNotFound(u64),
    /// An announced fingerprint disagrees with an explicitly supplied schema.
    SchemaMismatch,
    /// A queue entry whose payload is empty.
    EmptyEntry,
    /// A schema announcement entry whose payload is not exactly the marker
    /// byte followed by an 8-byte fingerprint.
    MalformedAnnouncement,
    /// A data record arrived before any schema was established.
    NoActiveSchema,
    /// Record bytes that do not parse against the active schema's shape.
    DecodeMismatch,
    /// A framed queue entry whose checksum or length field is inconsistent.
    CorruptedEntry,
}

} // verus!
