//! Compile-time type reflection without runtime registration.
//!
//! Each participating type contributes one statically allocated descriptor,
//! and a pointer to it is placed in a dedicated section of the compiled
//! binary.  At runtime the program walks its own executable-image header to
//! find that section, reinterprets it as an array of descriptor pointers,
//! and folds the descriptors into an identity-keyed registry, checking that
//! every field of every structured descriptor references a registered type.
//!
//! This crate holds the verified core: the descriptor data model ([`meta`]),
//! the image-header parser that locates the registry section ([`image`]),
//! and the validator that builds the identity-keyed registry ([`registry`]).
//! Reading the running process's own memory is inherently unsafe and is left
//! to a thin unverified shell around this crate; everything here works on
//! plain values.

pub mod image;
pub mod meta;
pub mod registry;
