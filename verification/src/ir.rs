//! The chain-agnostic intermediate representation: dependency graphs,
//! expression contexts, and the semantic model that shared detection rules
//! read.
pub mod analyzer_result;
pub mod ast;
pub mod rules;
pub mod semantic;
