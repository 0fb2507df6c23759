//! Compile-time analysis of enum discriminants and synthesis of the
//! trait implementations that expose them.
//!
//! The library consumes an already-parsed enum declaration (name, generics
//! rendered as text, attributes, variants with optional literal
//! discriminants), computes the ordered list of discriminant values with
//! arbitrary-precision arithmetic, derives the aggregate bit masks and
//! bounds, validates the structural properties a requested trait needs,
//! and renders the implementation block as source text.

pub mod analyzer;
pub mod bignum;
pub mod decl;
pub mod numeric;
pub mod synthesizer;
