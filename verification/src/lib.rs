//! Coral: zero-knowledge proofs that a public document is consistent with a
//! committed context-free grammar. This crate holds the verified core: the
//! grammar commitment, the document running-evaluation check, the folding
//! round arithmetic, and the option handling of the command line tool.

pub mod config;
pub mod document;
pub mod field;
pub mod folding;
pub mod metrics;
pub mod prover;
pub mod util;
