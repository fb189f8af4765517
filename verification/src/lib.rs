//! Decoding of opaque binary account payloads into structured, named values,
//! driven by a user-authored declarative schema.
//!
//! A schema document ([`schema::Yaml`]) is compiled into an immutable tree of
//! decoding nodes ([`desertree`]); the tree then drives a forward-only walk
//! over a byte buffer ([`decode`]) that yields an ordered sequence of
//! optionally named scalar values. The general facts that hold of the
//! compiler and the engine are stated and proved in [`laws`].

pub mod decode;
pub mod desertree;
pub mod errors;
pub mod laws;
pub mod sadtypes;
pub mod schema;
