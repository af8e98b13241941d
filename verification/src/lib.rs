//! Feed Me Logs: the verified core of a terminal log-triage tool.
//!
//! ```text
//! feeds --> normalizer --> store --> search --> widgets
//!                            |          |
//!                            +----------+--> export
//! ```
//!
//! Lines come in from the feeds, are normalised into structured entries,
//! kept in a bounded store, found again by the search engine, and shown by
//! the widgets or written out by the export. The program around the library
//! does the reading, the writing, the drawing and the locking.

pub mod app;
pub mod commands;
pub mod config;
pub mod event;
pub mod export;
pub mod feeds;
pub mod headless;
pub mod layout;
pub mod mock;
pub mod normalizer;
pub mod search;
pub mod store;
pub mod text;
pub mod theme;
pub mod time;
pub mod types;
pub mod widgets;
