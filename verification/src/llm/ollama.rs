//! Ollama chat provider: server address and the model chosen for each
//! request size.

use vstd::prelude::*;

use crate::llm::ModelType;

verus! {

/// Connection settings for a local Ollama server and the models to use,
/// smaller sizes falling back to larger ones.
pub struct OllamaClient {
    pub base_url: String,
    pub small_model: Option<String>,
    pub large_model: Option<String>,
    pub thinking_model: Option<String>,
}

impl OllamaClient {
    /// The model a request of this size should use: the small model for
    /// small requests, the large model for large requests and the thinking
    /// model for thinking requests, each falling back to the next smaller
    /// setting when absent.
    pub open spec fn spec_model_for_type(&self, model_type: ModelType) -> Option<String> {
        match model_type {
            ModelType::Small => self.small_model,
            ModelType::Large => if self.large_model is Some {
                self.large_model
            } else {
                self.small_model
            },
            ModelType::Thinking => if self.thinking_model is Some {
                self.thinking_model
            } else if self.large_model is Some {
                self.large_model
            } else {
                self.small_model
            },
        }
    }

    /// The configured model for the requested size.
    pub fn model_for_type(&self, model_type: ModelType) -> (r: Option<&String>)
        ensures
            r is Some <==> self.spec_model_for_type(model_type) is Some,
            r matches Some(m) ==> *m == self.spec_model_for_type(model_type)->Some_0,
    {
        match model_type {
            ModelType::Small => self.small_model.as_ref(),
            ModelType::Large => {
                if self.large_model.is_some() {
                    self.large_model.as_ref()
                } else {
                    self.small_model.as_ref()
                }
            },
            ModelType::Thinking => {
                if self.thinking_model.is_some() {
                    self.thinking_model.as_ref()
                } else if self.large_model.is_some() {
                    self.large_model.as_ref()
                } else {
                    self.small_model.as_ref()
                }
            },
        }
    }
}

} // verus!
