//! A source-to-source rewrite engine over a parsed program tree.
//!
//! Two independent engines operate over the same tree model:
//!
//! - a chain resolver, which replaces dotted chains of free identifiers
//!   (`a.b.c`) by a string literal looked up in a nested mapping table,
//!   either strictly (a partial match is a configuration error) or
//!   leniently (anything short of a full-depth leaf match is a no-op);
//! - a specifier rewriter, which rewrites the module-path string of
//!   import declarations, re-export declarations, "export all"
//!   declarations and dynamic-import calls, by ordered suffix rules or
//!   by ordered regex find/replace rules.

pub mod ast;
pub mod classmap;
pub mod extensions;
pub mod mapping;
pub mod patterns;
pub mod remapper;
pub mod specifier;
pub mod strutil;
