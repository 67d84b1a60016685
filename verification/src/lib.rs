//! Generation logic for typed accessors over a GSettings-style schema.
//!
//! The crate models a parsed schema (schemas, keys, enum and flag
//! definitions), resolves each key's type signature to an accessor shape
//! through a layered override system, synthesizes auxiliary enum and
//! bit-flag types with proven round-trip conversions to their wire form,
//! and renders the resulting accessor families as Rust source text.

pub mod aux;
pub mod casing;
pub mod docs;
pub mod function;
pub mod generate;
pub mod generators;
pub mod key;
pub mod schema;
pub mod settings;
pub mod strutil;
