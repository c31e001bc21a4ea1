//! Interactive terminal prompt engine and supporting workflow data model.
//!
//! The heart of the crate is a modal (vi-style) single-line editor, a
//! fuzzy-filtered selection list with a scrolling viewport, and a boolean
//! toggle prompt, all expressed as pure state machines with verified
//! contracts. Terminal I/O lives outside the library; callers feed key
//! events in and render the resulting state.

pub mod clients;
pub mod config;
pub mod context;
pub mod editor;
pub mod fuzzy;
pub mod git;
pub mod github;
pub mod gql_queries;
pub mod jira;
pub mod keys;
pub mod llm;
pub mod mcp;
pub mod notes;
pub mod selection;
pub mod shell_actions;
pub mod text;
pub mod todo;
pub mod toggle;
pub mod urls;
pub mod utils;
pub mod words;
