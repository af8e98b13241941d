//! The normaliser: from a raw line to a structured log entry.

pub mod cascade;
pub mod heuristics;
pub mod json;
pub mod logfmt;
