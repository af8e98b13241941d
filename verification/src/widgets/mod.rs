//! State and view models of the terminal widgets.

pub mod command_bar;
pub mod help;
pub mod line_edit;
pub mod log_stream;
pub mod producer_tree;
pub mod query_bar;
pub mod tab_bar;
