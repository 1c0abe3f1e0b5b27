//! Verified building blocks for declarative code generators: packed bit
//! fields with typed accessors, sequence expansion over token trees, and the
//! field rules of builder and debug derives.

pub mod attrs;
pub mod bitfield_attrs;
pub mod bits;
pub mod builder;
pub mod checks;
pub mod debug;
pub mod enum_specifier;
pub mod item;
pub mod layout;
pub mod outside;
pub mod seq_expand;
pub mod seq_macro;
pub mod specifier;
pub mod syntax;
pub mod tokens;
