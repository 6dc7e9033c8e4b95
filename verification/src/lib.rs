//! s8n: a unified package-manager front end.
//!
//! The library holds the logic of the tool: the parsers that turn each
//! package manager's textual output into package records, the command lines
//! that the tool runs, the selection and navigation state of its screens,
//! and the small text formats that it reads and writes.
pub mod text;
pub mod paths;
pub mod sys;
pub mod pm;
pub mod cli;
pub mod config;
pub mod graveyard;
pub mod ui;
pub mod tui;
