//! Incremental decoder for the FLV media container format.
//!
//! An FLV stream is a fixed-size file header followed by a sequence of
//! self-describing records ("tags") carrying audio, video, or script
//! (metadata) payloads.  Script payloads use a recursive, type-marker-tagged
//! value encoding.  Every decoder in this crate is total over arbitrary
//! byte input: it returns a complete value together with the number of
//! bytes consumed, a request for more bytes, or a typed failure, and never
//! panics.
//!
//! The byte-level grammar itself is written once, as specification
//! functions over `Seq<u8>` (module [`model`]); each executable decoder in
//! [`parser`] is proved to return exactly what the grammar says.

pub mod fields;
pub mod model;
pub mod parser;
pub mod text;
pub mod laws;
