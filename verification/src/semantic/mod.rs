//! Semantic analysis for HULK: the type vocabulary and conformance, the
//! lexical environment, the global type registry, the semantic diagnostics,
//! the hierarchy pass (with protocol extension), and the typing rules and
//! lookups of inference and checking.
pub mod analysis;
pub mod check;
pub mod conformance;
pub mod environment;
pub mod error;
pub mod hierarchy;
pub mod inference;
pub mod members;
pub mod operators;
pub mod registry;
pub mod signatures;
pub mod typed;
pub mod types;
pub mod variance;
