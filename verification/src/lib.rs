//! Extraction of structured documentation from source files of a functional
//! configuration language.
//!
//! Given a model of a parsed source file — its token stream and a shape-level
//! view of its syntax tree — the crate locates the comment attached to each
//! binding, splits the comment text into description, type signature and
//! example sections, normalizes indentation, and collects the formal
//! parameters of function-valued bindings.  Every executable function carries
//! a contract relating its result to a specification-level mirror of the
//! algorithm, and the laws the crate promises are stated as proof functions
//! beside the code they speak of.

pub mod collect;
pub mod comment;
pub mod indent;
pub mod parse;
pub mod text;
pub mod tree;
