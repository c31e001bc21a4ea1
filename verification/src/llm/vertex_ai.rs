//! Vertex AI chat provider: its request and response model, the client's
//! credentials, and the mapping between the shared model classes and the
//! provider's models. HTTP calls happen outside the library.

use vstd::prelude::*;

use crate::llm::ModelType;

verus! {

/// The models the tool selects between.
#[derive(Clone, Copy, Debug, PartialEq, Eq, Structural)]
pub enum VertexAiModel {
    Gemini20Flash,
    GeminiExp,
    Gemini20FlashThinking,
    Gemini15Flash,
    Gemini15Pro,
}

impl VertexAiModel {
    /// The model's API identifier.
    pub fn api_name(&self) -> (r: &'static str)
        ensures
            self is Gemini20Flash ==> r@ == "gemini-2.0-flash-exp"@,
            self is GeminiExp ==> r@ == "gemini-exp-1206"@,
            self is Gemini20FlashThinking ==> r@ == "gemini-2.0-flash-thinking-exp-01-21"@,
            self is Gemini15Flash ==> r@ == "gemini-1.5-flash-002"@,
            self is Gemini15Pro ==> r@ == "gemini-1.5-pro-002"@,
    {
        match self {
            VertexAiModel::Gemini20Flash => "gemini-2.0-flash-exp",
            VertexAiModel::GeminiExp => "gemini-exp-1206",
            VertexAiModel::Gemini20FlashThinking => "gemini-2.0-flash-thinking-exp-01-21",
            VertexAiModel::Gemini15Flash => "gemini-1.5-flash-002",
            VertexAiModel::Gemini15Pro => "gemini-1.5-pro-002",
        }
    }
}

/// Request marker enabling web search grounding.
#[derive(Debug)]
pub struct GoogleSearchTool {
    pub google_search: GoogleSearchOptions,
}

/// Options of the web search tool (none today).
#[derive(Debug)]
pub struct GoogleSearchOptions {}

/// One turn of a conversation.
#[derive(Debug)]
pub struct Content {
    pub role: Option<Role>,
    pub parts: Vec<Part>,
}

/// Who a turn comes from, in the provider's vocabulary.
#[derive(Clone, Copy, Debug, PartialEq, Eq, Structural)]
pub enum Role {
    User,
    Model,
}

/// One piece of a turn.
#[derive(Debug)]
pub struct Part {
    pub text: String,
}

/// One web source an answer was grounded in.
#[derive(Debug)]
pub struct GroundingChunk {
    pub web: crate::llm::Source,
}

/// The span of answer text a grounding support covers.
#[derive(Debug)]
pub struct GroundingSupportSegment {
    pub start_index: usize,
    pub end_index: usize,
    pub text: String,
}

/// Token accounting of a response.
#[derive(Debug)]
pub struct UsageMetadata {
    pub prompt_token_count: i32,
    pub candidates_token_count: i32,
    pub total_token_count: i32,
}

/// Credentials for the Vertex AI API.
pub struct VertexAiClient {
    pub api_key: String,
    pub project_id: String,
}

impl VertexAiClient {
    /// Remember the API key and project.
    pub fn new(api_key: String, project_id: String) -> (r: Self)
        ensures
            r.api_key == api_key,
            r.project_id == project_id,
    {
        Self { api_key, project_id }
    }

    /// Map the provider's role onto the shared one; an absent role reads as
    /// the model speaking.
    pub fn convert_to_standard_role(role: Option<Role>) -> (r: crate::llm::Role)
        ensures
            r == (match role {
                Some(Role::User) => crate::llm::Role::User,
                Some(Role::Model) => crate::llm::Role::Assistant,
                None => crate::llm::Role::Assistant,
            }),
    {
        match role {
            Some(Role::User) => crate::llm::Role::User,
            Some(Role::Model) => crate::llm::Role::Assistant,
            None => crate::llm::Role::Assistant,
        }
    }

    /// The provider model backing each shared model class.
    pub fn model_from_model_type(model_type: ModelType) -> (r: VertexAiModel)
        ensures
            r == (match model_type {
                ModelType::Small => VertexAiModel::Gemini20Flash,
                ModelType::Large => VertexAiModel::GeminiExp,
                ModelType::Thinking => VertexAiModel::Gemini20FlashThinking,
            }),
    {
        match model_type {
            ModelType::Small => VertexAiModel::Gemini20Flash,
            ModelType::Large => VertexAiModel::GeminiExp,
            ModelType::Thinking => VertexAiModel::Gemini20FlashThinking,
        }
    }
}

} // verus!
