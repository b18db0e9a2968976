//! Cancellable futures of async functions.
//!
//! From the text of an async function its signature is parsed, and from the signature the
//! plan gives the parts of the types that are generated for it.

pub mod contains;
pub mod keys;
pub mod laws;
pub mod occurrence;
pub mod parse;
pub mod plan;
pub mod planning;
pub mod rewrite;
pub mod syntax;
pub mod words;
