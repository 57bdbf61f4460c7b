//! Truent: multi-chain smart contract invariant analysis.
//!
//! This crate holds the verified core of the analyzer: the invariant
//! definition language and its model, type checker and evaluator; the
//! binding of invariants to contract getters and the invariants recognised
//! from a contract's functions; the chain detectors and the shared semantic
//! rules; the sandbox and tamper checks; the structural mutation of
//! sources for fuzzing; findings, text and HTML reports, the summary
//! dashboard, and the text helpers they share.
pub mod changelog;
pub mod config;
pub mod dsl_binding;
pub mod dsl_parser;
pub mod dynamic;
pub mod error;
pub mod evaluator;
pub mod evm_abi;
pub mod evm_detect;
pub mod finding;
pub mod generators;
pub mod html;
pub mod invariant_library;
pub mod ir;
pub mod model;
pub mod mutation;
pub mod oz_integration;
pub mod registry;
pub mod report;
pub mod solana_macro;
pub mod soroban;
pub mod strmap;
pub mod summary;
pub mod test_infrastructure;
pub mod text;
pub mod threat_model;
pub mod type_checker;
pub mod types;
pub mod ui;
pub mod violations;
pub mod words;
