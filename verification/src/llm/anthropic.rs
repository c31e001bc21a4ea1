//! Anthropic chat provider: its request and response model and the client's
//! credentials. The HTTP calls happen outside the library.

use vstd::prelude::*;

verus! {

/// The models the tool selects between.
#[derive(Clone, Copy, Debug, PartialEq, Eq, Structural)]
pub enum AnthropicModel {
    Claude35Haiku,
    Claude37Sonnet,
}

/// Extended-thinking switch in a request.
#[derive(Clone, Copy, Debug, PartialEq, Eq, Structural)]
pub enum ThinkingType {
    Enabled,
}

/// Extended-thinking settings of a request.
#[derive(Debug)]
pub struct ThinkingConfig {
    pub thinking_type: ThinkingType,
    pub budget_tokens: i32,
}

impl Default for ThinkingConfig {
    /// Thinking enabled with a small default budget.
    fn default() -> (r: Self)
        ensures
            r.thinking_type == ThinkingType::Enabled,
            r.budget_tokens == 1024,
    {
        ThinkingConfig { thinking_type: ThinkingType::Enabled, budget_tokens: 1024 }
    }
}

/// One block of answer content.
#[derive(Debug)]
pub enum ContentBlock {
    Text { text: String },
    Thinking { thinking: String },
    RedactedThinking { data: String },
}

/// Token accounting of a response.
#[derive(Debug)]
pub struct Usage {
    pub input_tokens: i32,
    pub output_tokens: i32,
}

/// A complete answer.
#[derive(Debug)]
pub struct AnthropicResponse {
    pub id: String,
    pub model: AnthropicModel,
    pub role: crate::llm::Role,
    pub content: Vec<ContentBlock>,
    pub stop_reason: Option<String>,
    pub usage: Usage,
}

/// The closing delta of a streamed answer.
#[derive(Debug)]
pub struct Delta {
    pub stop_reason: Option<String>,
    pub stop_sequence: Option<String>,
    pub text: Option<String>,
    pub thinking: Option<String>,
}

/// Incremental token accounting of a streamed answer.
#[derive(Debug)]
pub struct UsageDelta {
    pub input_tokens: Option<i32>,
    pub output_tokens: Option<i32>,
}

/// One event of a streamed answer.
#[derive(Debug)]
pub enum StreamEvent {
    MessageStart { message: AnthropicResponse },
    ContentBlockStart { index: usize, content_block: ContentBlock },
    ContentBlockDelta { index: usize, delta: ContentDelta },
    ContentBlockStop { index: usize },
    MessageDelta { delta: Delta, usage: Option<UsageDelta> },
    MessageStop,
    Ping,
    Error { error: StreamError },
}

/// An error event in a stream.
#[derive(Debug)]
pub struct StreamError {
    pub error_type: String,
    pub message: String,
}

/// One content increment of a streamed answer.
#[derive(Debug)]
pub enum ContentDelta {
    TextDelta { text: String },
    ThinkingDelta { thinking: String },
    RedactedThinkingDelta { data: String },
    SignatureDelta { signature: String },
    InputJsonDelta { partial_json: String },
}

/// Credentials for the Anthropic API.
pub struct AnthropicClient {
    pub api_key: String,
}

impl AnthropicClient {
    /// Remember the API key.
    pub fn new(api_key: String) -> (r: Self)
        ensures
            r.api_key == api_key,
    {
        Self { api_key }
    }
}

} // verus!
