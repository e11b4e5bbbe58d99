//! A verified decoder for a tagged binary property format: each
//! serialized property is a type tag, a declared length and a
//! type-specific payload that may itself contain nested properties.
//! The decoder is a single forward pass over an in-memory byte buffer
//! and builds an owned property tree; its behaviour is pinned, node
//! for node and byte for byte, by the specification-level decoder in
//! [`model`].
pub mod cursor;
pub mod error;
pub mod laws;
pub mod model;
pub mod properties;
mod text;
