//! Flattening of hierarchical 3D city-model documents into render-ready
//! buffers, with a triangle-to-object reverse index and attribute lookup.
//!
//! A document is a map of named city objects, each carrying a semantic type
//! and nested solid/surface geometry over a shared vertex table.  The library
//! turns such a document into a flat triangle buffer grouped by type, a
//! per-vertex color buffer, and a monotonic interval table that maps any
//! emitted triangle back to the object that produced it.

pub mod attrs;
pub mod colors;
pub mod flatten;
pub mod model;
pub mod pick;
