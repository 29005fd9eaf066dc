//! Object codec for an embedded document store.
//!
//! A record is stored as an immutable byte blob: a static region of
//! fixed-size primitives followed by a dynamic region of variable-length
//! payloads, each located through an 8-byte `(offset, length)` header.
//! All multi-byte scalars are little-endian and nulls are encoded as
//! reserved sentinel values inside each primitive's domain.
//!
//! The crate defines the blob layout as specification functions, the
//! typed accessors that read fields out of a blob, the uniform null
//! predicate, and the write-side contract a producer must uphold so that
//! every accessor returns the value that was encoded.

pub mod data_type;
pub mod encoding;
pub mod position;
pub mod property;
pub mod writer;
