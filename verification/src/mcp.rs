//! The data model of the tool's machine-facing command protocol: request
//! identities, capability advertisements and text results.
//!
//! The protocol's message loop, which reads and writes JSON, lives outside
//! the library.

use vstd::prelude::*;

verus! {

/// The identity a request carries: a string or a number.
#[derive(Debug, Clone)]
pub enum RequestId {
    Text(String),
    Number(i64),
}

/// A named, versioned implementation of the protocol.
#[derive(Debug, Clone)]
pub struct Implementation {
    pub name: String,
    pub version: String,
    pub title: Option<String>,
}

/// Whether the server announces tool-list changes.
#[derive(Debug, Clone)]
pub struct ToolsCapability {
    pub list_changed: Option<bool>,
}

/// Whether the server offers resources and announces their changes.
#[derive(Debug, Clone)]
pub struct ResourcesCapability {
    pub subscribe: Option<bool>,
    pub list_changed: Option<bool>,
}

/// Whether the server offers prompts and announces their changes.
#[derive(Debug, Clone)]
pub struct PromptsCapability {
    pub list_changed: Option<bool>,
}

/// Whether the client announces root-list changes.
#[derive(Debug, Clone)]
pub struct RootsCapability {
    pub list_changed: Option<bool>,
}

/// One piece of plain-text result content.
#[derive(Debug, Clone)]
pub struct TextContent {
    pub content_type: String,
    pub text: String,
}

} // verus!
