//! fracpack: a compact, offset-based binary encoding for structured values,
//! together with a schema builder that derives a machine-readable
//! description of a type graph.
//!
//! Values are encoded against a type descriptor ([`desc::TypeDesc`]) that
//! may refer to named composite types held in a [`desc::Registry`].  Each
//! composite encoding is split into a fixed region (one slot per field,
//! either an inline value or a 4-byte relative offset) and a heap region
//! (variable-length payloads appended after the fixed slots).

pub mod actions;
pub mod codec;
pub mod laws;
pub mod reflect;
pub mod schema;
pub mod dec;
pub mod desc;
pub mod enc;
pub mod value;
