//! The search engine: query parsing, greedy expansion over the ontology,
//! matching and ranking.

pub mod engine;
pub mod expand;
pub mod ontology;
pub mod pattern;
pub mod query;
