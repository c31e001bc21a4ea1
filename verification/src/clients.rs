//! Clients kept separate from the main API modules.

pub mod github;
